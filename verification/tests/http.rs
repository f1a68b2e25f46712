use speed::http::{
    answer, find_subslice, parse_content_length, Answer, EspCounterBody, ReadStep, RequestReader,
    Route,
};

fn read_all(chunks: &[&[u8]]) -> (RequestReader, ReadStep) {
    let mut reader = RequestReader::new();
    let mut step = ReadStep::More;
    for chunk in chunks {
        assert_eq!(step, ReadStep::More);
        assert!(reader.chunk_fits(chunk));
        step = reader.push(chunk);
    }
    (reader, step)
}

fn body_of(route: &Route) -> Option<Vec<u8>> {
    match route {
        Route::SetCounter(body) => Some(body.clone()),
        _ => None,
    }
}

#[test]
fn subslices_are_found() {
    assert_eq!(find_subslice(b"abcabc", b"ca"), Some(2));
    assert_eq!(find_subslice(b"abcabc", b"abc"), Some(0));
    assert_eq!(find_subslice(b"aab", b"ab"), Some(1));
    assert_eq!(find_subslice(b"abc", b""), None);
    assert_eq!(find_subslice(b"", b"a"), None);
    assert_eq!(find_subslice(b"ab", b"abc"), None);
    assert_eq!(find_subslice(b"abc", b"d"), None);
}

#[test]
fn content_length_is_read() {
    assert_eq!(parse_content_length("Content-Length: 17"), 17);
    assert_eq!(parse_content_length("Host: x\r\ncontent-length:\t5 \r\n"), 5);
    assert_eq!(parse_content_length("CONTENT-LENGTH: 5"), 0);
    assert_eq!(parse_content_length("Content-Length: five\r\nContent-Length: 6"), 6);
    assert_eq!(parse_content_length("Content-Length: 7\r\nContent-Length: 6"), 7);
    assert_eq!(parse_content_length("Content-Length: -7"), 0);
    assert_eq!(parse_content_length(" Content-Length: 7"), 0);
    assert_eq!(parse_content_length(""), 0);
}

#[test]
fn a_request_is_read_to_its_last_byte() {
    let request = b"POST /esp_counter HTTP/1.1\r\nContent-Length: 14\r\n\r\n{\"counter\":42}";
    let (reader, step) = read_all(&[request]);
    assert_eq!(step, ReadStep::Stop);
    assert_eq!(body_of(&reader.route()), Some(b"{\"counter\":42}".to_vec()));
    for cut in 1..request.len() {
        let (reader, step) = read_all(&[&request[..cut], &request[cut..]]);
        assert_eq!(step, ReadStep::Stop);
        assert_eq!(body_of(&reader.route()), Some(b"{\"counter\":42}".to_vec()));
        let (_, early) = read_all(&[&request[..cut]]);
        assert_eq!(early, ReadStep::More);
    }
}

#[test]
fn what_follows_a_request_is_left_out_of_its_body() {
    let (reader, step) = read_all(&[b"POST /esp_counter\r\nContent-Length: 2\r\n\r\n{}rest"]);
    assert_eq!(step, ReadStep::Stop);
    assert_eq!(body_of(&reader.route()), Some(b"{}".to_vec()));
}

#[test]
fn a_broken_off_request_has_the_body_that_came() {
    let (mut reader, step) = read_all(&[b"POST /esp_counter HTTP/1.1\r\ncontent-length: 9\r\n\r\n{\"c"]);
    assert_eq!(step, ReadStep::More);
    assert_eq!(reader.push(&[]), ReadStep::Stop);
    assert_eq!(body_of(&reader.route()), Some(b"{\"c".to_vec()));
}

#[test]
fn a_request_too_long_is_not_taken() {
    let mut reader = RequestReader::new();
    assert_eq!(reader.push(&[b'a'; 4000]), ReadStep::More);
    assert!(reader.chunk_fits(&[b'b'; 97]));
    assert_eq!(reader.push(&[b'b'; 97]), ReadStep::Stop);
    assert_eq!(reader.push(&[b'c'; 96]), ReadStep::More);
    assert_eq!(reader.push(b"d"), ReadStep::Stop);
    assert!(matches!(reader.route(), Route::Malformed));
}

#[test]
fn a_length_past_counting_does_not_fit() {
    let reader = RequestReader::new();
    let huge = format!("POST /esp_counter\r\nContent-Length: {}\r\n\r\n", usize::MAX);
    assert!(!reader.chunk_fits(huge.as_bytes()));
    let more = format!("POST /esp_counter\r\nContent-Length: {}0\r\n\r\n", usize::MAX);
    assert!(reader.chunk_fits(more.as_bytes()));
}

#[test]
fn requests_are_routed() {
    let route = |bytes: &[u8]| read_all(&[bytes]).0.route();
    assert!(matches!(route(b"GET /esp_counter HTTP/1.1\r\n\r\n"), Route::NotFound));
    assert!(matches!(route(b"POST /other HTTP/1.1\r\n\r\n"), Route::NotFound));
    assert!(matches!(route(b"POST\r\n\r\n"), Route::NotFound));
    assert!(matches!(route(b" \r\n\r\n"), Route::NotFound));
    assert!(matches!(route(b"\r\n\r\n"), Route::Malformed));
    assert!(matches!(route(b"POST /esp_counter HTTP/1.1\r\n"), Route::Malformed));
    assert!(matches!(route(b"POST /esp_counter \xff\r\n\r\n"), Route::Malformed));
    assert_eq!(body_of(&route(b"  POST   /esp_counter\r\n\r\nx")), Some(vec![]));
}

#[test]
fn requests_are_answered() {
    let post = Route::SetCounter(vec![]);
    let body = |counter, count| Some(EspCounterBody { counter, count });
    assert_eq!(answer(&post, body(Some(5), Some(6))), Answer::Accepted(5));
    assert_eq!(answer(&post, body(None, Some(600))), Answer::Accepted(100));
    assert_eq!(answer(&post, body(Some(-1), None)), Answer::Accepted(0));
    assert_eq!(answer(&post, body(None, None)), Answer::MissingCounter);
    assert_eq!(answer(&post, None), Answer::InvalidJson);
    assert_eq!(answer(&Route::NotFound, body(Some(5), None)), Answer::NotFound);
    assert_eq!(answer(&Route::Malformed, body(Some(5), None)), Answer::BadRequest);
}

#[test]
fn responses_are_written_out() {
    assert_eq!(
        Answer::Accepted(3).response(),
        "HTTP/1.1 200 OK\r\nContent-Type: application/json\r\nContent-Length: 15\r\nConnection: close\r\n\r\n{\"status\":\"ok\"}"
    );
    assert_eq!(
        Answer::NotFound.response(),
        "HTTP/1.1 404 Not Found\r\nContent-Type: application/json\r\nContent-Length: 21\r\nConnection: close\r\n\r\n{\"error\":\"not_found\"}"
    );
    for (a, error) in [
        (Answer::MissingCounter, "missing_counter"),
        (Answer::InvalidJson, "invalid_json"),
        (Answer::BadRequest, "bad_request"),
    ] {
        let body = format!("{{\"error\":\"{}\"}}", error);
        assert_eq!(
            a.response(),
            format!(
                "HTTP/1.1 400 Bad Request\r\nContent-Type: application/json\r\nContent-Length: {}\r\nConnection: close\r\n\r\n{}",
                body.len(),
                body
            )
        );
    }
}
