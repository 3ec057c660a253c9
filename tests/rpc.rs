use pallet_kp::rpc::{Error, Kp};
use std::sync::Arc;

#[test]
fn handle_keeps_its_client() {
    let client = Arc::new(5u32);
    let kp: Kp<u32, ()> = Kp::new(client.clone());
    assert!(Arc::ptr_eq(kp.client(), &client));
}

#[test]
fn error_codes() {
    assert_eq!(i32::from(Error::RuntimeError), 1);
    assert_eq!(i32::from(Error::DecodeError), 2);
}
