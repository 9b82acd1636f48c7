use ed2k::{Ed2kBlue, Ed2kRed, Ed2kRedBlue};

fn hex(bytes: &[u8]) -> String {
    let mut text = String::new();
    for byte in bytes {
        text.push_str(&format!("{:02x}", byte));
    }
    text
}

#[test]
fn empty_blue() {
    let hash = Ed2kBlue::digest(&vec![0u8; 0]);
    assert_eq!(hex(&hash), "31d6cfe0d16ae931b73c59d7e0c089c0");
}

#[test]
fn empty_red() {
    let hash = Ed2kRed::digest(&vec![0u8; 0]);
    assert_eq!(hex(&hash), "31d6cfe0d16ae931b73c59d7e0c089c0");
}

#[test]
fn empty_red_blue() {
    let hash = Ed2kRedBlue::digest(&vec![0u8; 0]);
    assert_eq!(hex(&hash), format!("{}{}", "31d6cfe0d16ae931b73c59d7e0c089c0", "31d6cfe0d16ae931b73c59d7e0c089c0"));
}

#[test]
fn sub_zeroed_chunk_blue() {
    let hash = Ed2kBlue::digest(&vec![0u8; 412]);
    assert_eq!(hex(&hash), "a89605d61bb80c73ead447285c05f588");
}

#[test]
fn sub_zeroed_chunk_red() {
    let hash = Ed2kRed::digest(&vec![0u8; 412]);
    assert_eq!(hex(&hash), "a89605d61bb80c73ead447285c05f588");
}

#[test]
fn sub_zeroed_chunk_red_blue() {
    let hash = Ed2kRedBlue::digest(&vec![0u8; 412]);
    assert_eq!(hex(&hash), format!("{}{}", "a89605d61bb80c73ead447285c05f588", "a89605d61bb80c73ead447285c05f588"));
}

#[test]
fn sub_pattern_chunk_blue() {
    let hash = Ed2kBlue::digest(&vec![0x55u8; 412]);
    assert_eq!(hex(&hash), "41dfbddfe5a4b05236a0d932dd445a74");
}

#[test]
fn sub_pattern_chunk_red() {
    let hash = Ed2kRed::digest(&vec![0x55u8; 412]);
    assert_eq!(hex(&hash), "41dfbddfe5a4b05236a0d932dd445a74");
}

#[test]
fn sub_pattern_chunk_red_blue() {
    let hash = Ed2kRedBlue::digest(&vec![0x55u8; 412]);
    assert_eq!(hex(&hash), format!("{}{}", "41dfbddfe5a4b05236a0d932dd445a74", "41dfbddfe5a4b05236a0d932dd445a74"));
}

#[test]
fn one_zeroed_chunk_blue() {
    let hash = Ed2kBlue::digest(&vec![0u8; 9728000]);
    assert_eq!(hex(&hash), "d7def262a127cd79096a108e7a9fc138");
}

#[test]
fn one_zeroed_chunk_red() {
    let hash = Ed2kRed::digest(&vec![0u8; 9728000]);
    assert_eq!(hex(&hash), "fc21d9af828f92a8df64beac3357425d");
}

#[test]
fn one_zeroed_chunk_red_blue() {
    let hash = Ed2kRedBlue::digest(&vec![0u8; 9728000]);
    assert_eq!(hex(&hash), format!("{}{}", "fc21d9af828f92a8df64beac3357425d", "d7def262a127cd79096a108e7a9fc138"));
}

#[test]
fn one_pattern_chunk_blue() {
    let hash = Ed2kBlue::digest(&vec![0x55u8; 9728000]);
    assert_eq!(hex(&hash), "4127a47867b6110f0f86f2d9845fb374");
}

#[test]
fn one_pattern_chunk_red() {
    let hash = Ed2kRed::digest(&vec![0x55u8; 9728000]);
    assert_eq!(hex(&hash), "49e80f377b7e4e706dbd3ecc89f39306");
}

#[test]
fn one_pattern_chunk_red_blue() {
    let hash = Ed2kRedBlue::digest(&vec![0x55u8; 9728000]);
    assert_eq!(hex(&hash), format!("{}{}", "49e80f377b7e4e706dbd3ecc89f39306", "4127a47867b6110f0f86f2d9845fb374"));
}

#[test]
fn super_one_zeroed_chunk_blue() {
    let hash = Ed2kBlue::digest(&vec![0u8; 9728412]);
    assert_eq!(hex(&hash), "9828f449478a35b909e86ba9bdbce24b");
}

#[test]
fn super_one_zeroed_chunk_red() {
    let hash = Ed2kRed::digest(&vec![0u8; 9728412]);
    assert_eq!(hex(&hash), "9828f449478a35b909e86ba9bdbce24b");
}

#[test]
fn super_one_zeroed_chunk_red_blue() {
    let hash = Ed2kRedBlue::digest(&vec![0u8; 9728412]);
    assert_eq!(hex(&hash), format!("{}{}", "9828f449478a35b909e86ba9bdbce24b", "9828f449478a35b909e86ba9bdbce24b"));
}

#[test]
fn super_one_pattern_chunk_blue() {
    let hash = Ed2kBlue::digest(&vec![0x55u8; 9728412]);
    assert_eq!(hex(&hash), "ac4fd3e805f05d29e3e119f0f3e61bf0");
}

#[test]
fn super_one_pattern_chunk_red() {
    let hash = Ed2kRed::digest(&vec![0x55u8; 9728412]);
    assert_eq!(hex(&hash), "ac4fd3e805f05d29e3e119f0f3e61bf0");
}

#[test]
fn super_one_pattern_chunk_red_blue() {
    let hash = Ed2kRedBlue::digest(&vec![0x55u8; 9728412]);
    assert_eq!(hex(&hash), format!("{}{}", "ac4fd3e805f05d29e3e119f0f3e61bf0", "ac4fd3e805f05d29e3e119f0f3e61bf0"));
}

#[test]
fn two_zeroed_chunks_blue() {
    let hash = Ed2kBlue::digest(&vec![0u8; 19456000]);
    assert_eq!(hex(&hash), "194ee9e4fa79b2ee9f8829284c466051");
}

#[test]
fn two_zeroed_chunks_red() {
    let hash = Ed2kRed::digest(&vec![0u8; 19456000]);
    assert_eq!(hex(&hash), "114b21c63a74b6ca922291a11177dd5c");
}

#[test]
fn two_zeroed_chunks_red_blue() {
    let hash = Ed2kRedBlue::digest(&vec![0u8; 19456000]);
    assert_eq!(hex(&hash), format!("{}{}", "114b21c63a74b6ca922291a11177dd5c", "194ee9e4fa79b2ee9f8829284c466051"));
}

#[test]
fn two_pattern_chunks_blue() {
    let hash = Ed2kBlue::digest(&vec![0x55u8; 19456000]);
    assert_eq!(hex(&hash), "322b445351fab0a78970a6a083693b5a");
}

#[test]
fn two_pattern_chunks_red() {
    let hash = Ed2kRed::digest(&vec![0x55u8; 19456000]);
    assert_eq!(hex(&hash), "54fc1e8d35b382c0aa7e73e54297c582");
}

#[test]
fn two_pattern_chunks_red_blue() {
    let hash = Ed2kRedBlue::digest(&vec![0x55u8; 19456000]);
    assert_eq!(hex(&hash), format!("{}{}", "54fc1e8d35b382c0aa7e73e54297c582", "322b445351fab0a78970a6a083693b5a"));
}

#[test]
fn super_two_zeroed_chunks_blue() {
    let hash = Ed2kBlue::digest(&vec![0u8; 19456412]);
    assert_eq!(hex(&hash), "38ce731644eed021ba5c14c980fd6a32");
}

#[test]
fn super_two_zeroed_chunks_red() {
    let hash = Ed2kRed::digest(&vec![0u8; 19456412]);
    assert_eq!(hex(&hash), "38ce731644eed021ba5c14c980fd6a32");
}

#[test]
fn super_two_zeroed_chunks_red_blue() {
    let hash = Ed2kRedBlue::digest(&vec![0u8; 19456412]);
    assert_eq!(hex(&hash), format!("{}{}", "38ce731644eed021ba5c14c980fd6a32", "38ce731644eed021ba5c14c980fd6a32"));
}

#[test]
fn super_two_pattern_chunks_blue() {
    let hash = Ed2kBlue::digest(&vec![0x55u8; 19456412]);
    assert_eq!(hex(&hash), "0171e3f247bdd948d299a5178d9295e7");
}

#[test]
fn super_two_pattern_chunks_red() {
    let hash = Ed2kRed::digest(&vec![0x55u8; 19456412]);
    assert_eq!(hex(&hash), "0171e3f247bdd948d299a5178d9295e7");
}

#[test]
fn super_two_pattern_chunks_red_blue() {
    let hash = Ed2kRedBlue::digest(&vec![0x55u8; 19456412]);
    assert_eq!(hex(&hash), format!("{}{}", "0171e3f247bdd948d299a5178d9295e7", "0171e3f247bdd948d299a5178d9295e7"));
}
