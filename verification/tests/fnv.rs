use steam_tools::fnv::fnv1a_hash;

#[test]
fn hash_of_a_known_function_name() {
    assert_eq!(fnv1a_hash("GetTopManager"), 0xC89CFA75);
}

#[test]
fn hash_of_reference_vectors() {
    assert_eq!(fnv1a_hash(""), 0x811c9dc5);
    assert_eq!(fnv1a_hash("a"), 0xe40c292c);
    assert_eq!(fnv1a_hash("foobar"), 0xbf9cf968);
}
