//! Logic of the speed counter: the firmware that shows a counter on a TFT
//! panel and the desktop program that reads and sets it over the network.

pub mod addr;
pub mod arp;
pub mod broker;
pub mod counter;
pub mod discovery;
pub mod events;
pub mod http;
pub mod mqtt;
pub mod text;
pub mod tft;
pub mod ui;
pub mod web_gui;
pub mod wifi;
