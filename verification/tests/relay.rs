//! Checks of the relay pairing and the argument-selection helper.

use rodust_raknet::network::MITM;
use rodust_raknet::util::choice_1_or_err;

#[test]
fn mitm_pairs_the_two_directions() {
    let mitm = MITM::new("to-client", "to-server");
    assert_eq!(mitm.to_client, "to-client");
    assert_eq!(mitm.to_server, "to-server");
}

#[test]
fn choice_picks_the_present_alternative() {
    assert_eq!(choice_1_or_err::<u8, &str>(None, None, "both"), Ok(None));
    assert_eq!(choice_1_or_err(Some(1u8), None, "both"), Ok(Some(1)));
    assert_eq!(choice_1_or_err(None, Some(2u8), "both"), Ok(Some(2)));
    assert_eq!(choice_1_or_err(Some(1u8), Some(2u8), "both"), Err("both"));
}
