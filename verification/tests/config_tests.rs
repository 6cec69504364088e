use sanctifier::config::{ConfigGenerator, SanctifyConfig};

#[test]
fn test_generate_default_config() {
    let config = ConfigGenerator::generate_default_config();

    // Verify ignore_paths
    assert_eq!(config.ignore_paths, vec!["target", ".git"]);

    // Verify enabled_rules
    assert_eq!(
        config.enabled_rules,
        vec!["auth_gaps", "panics", "arithmetic", "ledger_size", "events"]
    );

    // Verify ledger_limit
    assert_eq!(config.ledger_limit, 64000);

    // Verify strict_mode
    assert_eq!(config.strict_mode, false);

    // Verify approaching_threshold (parts per thousand: 800 stands for 80%)
    assert_eq!(config.approaching_threshold, 800);

    // Verify custom_rules
    assert_eq!(config.custom_rules.len(), 2);

    let rule1 = &config.custom_rules[0];
    assert_eq!(rule1.name, "no_unsafe_block");
    assert_eq!(rule1.pattern, "unsafe\\s*\\{");

    let rule2 = &config.custom_rules[1];
    assert_eq!(rule2.name, "no_mem_forget");
    assert_eq!(rule2.pattern, "std::mem::forget");
}

#[test]
fn test_config_has_all_required_fields() {
    let config = ConfigGenerator::generate_default_config();

    // Ensure all required fields are present and non-empty where appropriate
    assert!(
        !config.ignore_paths.is_empty(),
        "ignore_paths should not be empty"
    );
    assert!(
        !config.enabled_rules.is_empty(),
        "enabled_rules should not be empty"
    );
    assert!(config.ledger_limit > 0, "ledger_limit should be positive");
    assert!(
        config.approaching_threshold > 0 && config.approaching_threshold < 1000,
        "approaching_threshold should be between 0 and 1000 parts per thousand"
    );
}

#[test]
fn test_custom_rules_have_valid_patterns() {
    let config = ConfigGenerator::generate_default_config();

    for rule in &config.custom_rules {
        assert!(!rule.name.is_empty(), "Custom rule name should not be empty");
        assert!(
            !rule.pattern.is_empty(),
            "Custom rule pattern should not be empty"
        );

        // Verify patterns are valid regex
        let regex_result = regex::Regex::new(&rule.pattern);
        assert!(
            regex_result.is_ok(),
            "Pattern '{}' should be a valid regex",
            rule.pattern
        );
    }
}

#[test]
fn test_stock_config_enables_event_checks() {
    let config = SanctifyConfig::default();
    assert_eq!(
        config.enabled_rules,
        vec!["auth_gaps", "panics", "arithmetic", "ledger_size", "events"]
    );
    assert_eq!(config.ledger_limit, 64000);
    assert_eq!(config.approaching_threshold, 800);
    assert!(!config.strict_mode);
    assert_eq!(config.custom_rules.len(), 2);
}
