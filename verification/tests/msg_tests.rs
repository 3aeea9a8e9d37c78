//! Tests for the error and message records carried across the host
//! boundary.

use deno_in_deno::errors::new_error;
use deno_in_deno::msg::DIDResponse;
use deno_in_deno::msg::ResourceIdResponse;

#[test]
fn new_error_carries_its_message() {
    let err = new_error("unknown correlation id");
    assert_eq!(err.message(), "unknown correlation id");
}

#[test]
fn response_envelope_holds_exactly_one_side() {
    let done: DIDResponse<u32> = DIDResponse::done(17);
    assert!(done.error.is_none());
    assert_eq!(done.data, Some(17));

    let failed: DIDResponse<u32> = DIDResponse::failed(new_error("boom"));
    assert!(failed.data.is_none());
    assert_eq!(failed.error.expect("error side set").message(), "boom");
}

#[test]
fn resource_id_response_reports_the_handle() {
    let msg = ResourceIdResponse { rid: 3 };
    assert_eq!(msg.rid, 3);
    assert_eq!(msg, ResourceIdResponse { rid: 3 });
}
