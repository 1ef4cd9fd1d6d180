#[test]
fn sanitise_id() {
    assert!(bindgen_c::sanitise_id("") == "");
    assert!(bindgen_c::sanitise_id("!@£$%^&*()_+") == "_");
    assert!(bindgen_c::sanitise_id("filename.h") == "filenameh");
}
