use ar_pe_ce::codec::FrameError;
use ar_pe_ce::envelope::{decode_reply, encode_reply, Error, Infallible, Reply};

#[test]
fn value_reply_text() {
    let r: Reply = Ok(b"\"x\"".to_vec());
    assert_eq!(encode_reply(&r), b"{\"Ok\":\"x\"}".to_vec());
}

#[test]
fn bad_request_reply_text() {
    let r: Reply = Err(Error::BadRequest(b"{\"code\":4}".to_vec()));
    assert_eq!(encode_reply(&r), b"{\"Err\":{\"BadRequest\":{\"code\":4}}}".to_vec());
}

#[test]
fn unexpected_reply_text_is_escaped() {
    let r: Reply = Err(Error::Unexpected("say \"hi\"\n".to_string()));
    assert_eq!(
        encode_reply(&r),
        b"{\"Err\":{\"Unexpected\":\"say \\\"hi\\\"\\n\"}}".to_vec()
    );
}

#[test]
fn reply_round_trips() {
    let replies: Vec<Reply> = vec![
        Ok(b"null".to_vec()),
        Ok(b"{\"bar\":\"123\"}".to_vec()),
        Err(Error::BadRequest(b"\"nope\"".to_vec())),
        Err(Error::Unexpected("return error".to_string())),
        Err(Error::Unexpected("multi\nline \\ \u{e9}".to_string())),
    ];
    for r in replies {
        let text = encode_reply(&r);
        let back = decode_reply(&text).unwrap();
        match (&r, &back) {
            (Ok(a), Ok(b)) => assert_eq!(a, b),
            (Err(Error::BadRequest(a)), Err(Error::BadRequest(b))) => assert_eq!(a, b),
            (Err(Error::Unexpected(a)), Err(Error::Unexpected(b))) => assert_eq!(a, b),
            _ => panic!("variant changed: {:?} -> {:?}", r, back),
        }
    }
}

#[test]
fn decode_unescapes_unexpected_text() {
    let back = decode_reply(b"{\"Err\":{\"Unexpected\":\"a\\tb\"}}").unwrap();
    assert!(matches!(back, Err(Error::Unexpected(ref m)) if m == "a\tb"));
}

#[test]
fn decode_refuses_other_texts() {
    for text in [
        &b""[..],
        b"{\"Ok\":",
        b"{\"Ok\":1",
        b"{\"Err\":{\"Other\":1}}",
        b"{\"Err\":{\"Unexpected\":7}}",
        b"[1]",
    ] {
        assert!(matches!(decode_reply(text), Err(FrameError::Malformed)), "{:?}", text);
    }
}

#[test]
fn infallible_is_a_unit_value() {
    assert_eq!(Infallible, Infallible);
}
