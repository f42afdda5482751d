use kite_mux::frame::{
    HandlerError, RequestFrame, RequestPayload, ResponseFrame, ResponsePayload, Tagged,
};
use kite_mux::service::KiteService;

#[test]
fn default_response_is_empty_success() {
    let frame = ResponseFrame::default();
    assert_eq!(frame.payload, Ok(ResponsePayload::Empty));
    assert!(frame.payload.is_ok());
}

#[test]
fn handler_error_is_distinct_from_empty_success() {
    let failed = ResponseFrame {
        payload: Err(HandlerError { message: String::from("boom") }),
    };
    assert_ne!(failed.payload, ResponseFrame::default().payload);
}

#[test]
fn from_wraps_under_tag_zero() {
    let t = Tagged::from(5u8);
    assert_eq!(t.v, 5);
    assert_eq!(t.tag, 0);
}

#[test]
fn retag_copies_the_tag_verbatim() {
    let req = Tagged::new("request", 4_000_000_000u32);
    let rsp = req.retag(17u64);
    assert_eq!(rsp.tag, 4_000_000_000);
    assert_eq!(rsp.v, 17);
}

#[test]
fn handler_answers_empty_success_under_request_tag() {
    let mut service = KiteService;
    assert!(service.poll_ready());
    let req = Tagged::new(RequestFrame { payload: RequestPayload { body: vec![9, 9] } }, 7);
    let rsp = service.call(req);
    assert_eq!(rsp.tag, 7);
    assert_eq!(rsp.v.payload, Ok(ResponsePayload::Empty));
}
