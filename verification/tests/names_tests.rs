use sqlcord::names::sanitize_channel_name;

#[test]
fn test_sanitize_channel_name() {
    // Test normal case
    assert_eq!(sanitize_channel_name("test"), ("test".to_string(), false));

    // Test with spaces
    assert_eq!(sanitize_channel_name("Test test"), ("test_test".to_string(), true));

    // Test with uppercase
    assert_eq!(sanitize_channel_name("TestName"), ("testname".to_string(), true));

    // Test with special characters (should trim trailing underscores)
    assert_eq!(sanitize_channel_name("test-name!"), ("test_name".to_string(), true));

    // Test with underscores (should remain)
    assert_eq!(sanitize_channel_name("test_name"), ("test_name".to_string(), false));

    // Test trimming underscores
    assert_eq!(sanitize_channel_name("_test_"), ("test".to_string(), true));

    // Test multiple consecutive underscores
    assert_eq!(sanitize_channel_name("test__name"), ("test_name".to_string(), true));

    // Test empty after sanitization
    assert_eq!(sanitize_channel_name("___"), ("".to_string(), true));

    // Test just numbers
    assert_eq!(sanitize_channel_name("123"), ("123".to_string(), false));
}

#[test]
fn sanitize_trims_before_it_compares() {
    assert_eq!(sanitize_channel_name("  users  "), ("users".to_string(), false));
    assert_eq!(sanitize_channel_name(""), ("".to_string(), false));
    assert_eq!(sanitize_channel_name("   "), ("".to_string(), false));
}

#[test]
fn sanitize_replaces_and_squeezes() {
    assert_eq!(sanitize_channel_name("a - b"), ("a_b".to_string(), true));
    assert_eq!(sanitize_channel_name("é_x"), ("x".to_string(), true));
    assert_eq!(sanitize_channel_name("a____b__c"), ("a_b_c".to_string(), true));
    assert_eq!(sanitize_channel_name("!!a!!"), ("a".to_string(), true));
    assert_eq!(sanitize_channel_name("A1_b2"), ("a1_b2".to_string(), true));
}
