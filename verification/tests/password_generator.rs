use vault_core::password_generator::{
    covers_all_classes, spell_password, AMBIGUOUS_CHARS, DIGITS, LOWERCASE, SYMBOLS, UPPERCASE,
};
use vault_core::{generate_default_password, generate_password, PasswordConfig};

#[test]
fn test_default_password_generation() {
    let password = generate_default_password();
    assert_eq!(password.len(), 16);
}

#[test]
fn test_custom_length() {
    let config = PasswordConfig::new(20);
    let password = generate_password(&config).unwrap();
    assert_eq!(password.len(), 20);
}

#[test]
fn test_only_digits() {
    let config = PasswordConfig {
        length: 10,
        use_uppercase: false,
        use_lowercase: false,
        use_digits: true,
        use_symbols: false,
        exclude_ambiguous: false,
    };
    let password = generate_password(&config).unwrap();
    assert!(password.chars().all(|c| c.is_ascii_digit()));
}

#[test]
fn test_exclude_ambiguous() {
    let config = PasswordConfig {
        length: 20,
        use_uppercase: true,
        use_lowercase: true,
        use_digits: true,
        use_symbols: false,
        exclude_ambiguous: true,
    };
    let password = generate_password(&config).unwrap();
    assert!(!password.chars().any(|c| AMBIGUOUS_CHARS.contains(c)));
}

#[test]
fn test_minimum_length_validation() {
    let config = PasswordConfig::new(2);
    assert!(config.validate().is_err());
}

#[test]
fn test_no_charset_validation() {
    let config = PasswordConfig {
        length: 10,
        use_uppercase: false,
        use_lowercase: false,
        use_digits: false,
        use_symbols: false,
        exclude_ambiguous: false,
    };
    assert!(config.validate().is_err());
}

#[test]
fn validation_messages() {
    assert_eq!(PasswordConfig::new(3).validate(), Err("La longueur minimale est de 4 caractères".to_string()));
    assert_eq!(PasswordConfig::new(129).validate(), Err("La longueur maximale est de 128 caractères".to_string()));
    assert_eq!(PasswordConfig::new(4).validate(), Ok(()));
    assert_eq!(PasswordConfig::new(128).validate(), Ok(()));
    let none = PasswordConfig {
        length: 10,
        use_uppercase: false,
        use_lowercase: false,
        use_digits: false,
        use_symbols: false,
        exclude_ambiguous: true,
    };
    assert_eq!(none.validate(), Err("Au moins un type de caractère doit être activé".to_string()));
    assert_eq!(generate_password(&none), Err("Au moins un type de caractère doit être activé".to_string()));
    assert_eq!(generate_password(&PasswordConfig::new(200)), Err("La longueur maximale est de 128 caractères".to_string()));
}

#[test]
fn default_config() {
    let c = PasswordConfig::default();
    assert_eq!(c.length, 16);
    assert!(c.use_uppercase && c.use_lowercase && c.use_digits && c.use_symbols && c.exclude_ambiguous);
    let c = PasswordConfig::new(30);
    assert_eq!(c.length, 30);
    assert!(c.use_uppercase && c.use_lowercase && c.use_digits && c.use_symbols && c.exclude_ambiguous);
}

#[test]
fn charset_follows_the_flags() {
    let all = PasswordConfig { exclude_ambiguous: false, ..PasswordConfig::default() };
    assert_eq!(all.build_charset(), format!("{}{}{}{}", LOWERCASE, UPPERCASE, DIGITS, SYMBOLS));
    let clear = PasswordConfig::default();
    assert_eq!(
        clear.build_charset(),
        "abcdefghijkmnopqrstuvwxyzABCDEFGHJKLMNPQRSTUVWXYZ23456789!@#$%^&*()_+-=[]{}|;:,.<>?"
    );
    let digits = PasswordConfig {
        length: 6,
        use_uppercase: false,
        use_lowercase: false,
        use_digits: true,
        use_symbols: false,
        exclude_ambiguous: true,
    };
    assert_eq!(digits.build_charset(), "23456789");
}

#[test]
fn every_enabled_class_appears() {
    for _ in 0..50 {
        let config = PasswordConfig::new(4);
        let p = generate_password(&config).unwrap();
        assert_eq!(p.chars().count(), 4);
        assert!(p.chars().any(|c| LOWERCASE.contains(c)));
        assert!(p.chars().any(|c| UPPERCASE.contains(c)));
        assert!(p.chars().any(|c| DIGITS.contains(c)));
        assert!(p.chars().any(|c| SYMBOLS.contains(c)));
        assert!(p.chars().all(|c| config.build_charset().contains(c)));
    }
}

#[test]
fn spelling_and_coverage() {
    let charset: Vec<char> = "ab1!".chars().collect();
    let p = spell_password(&charset, &[0, 3, 2, 2, 1]);
    assert_eq!(p, vec!['a', '!', '1', '1', 'b']);
    let config = PasswordConfig { use_uppercase: false, ..PasswordConfig::new(5) };
    assert!(covers_all_classes(&config, &p));
    assert!(!covers_all_classes(&PasswordConfig::new(5), &p));
    assert!(!covers_all_classes(&config, &['a', 'b', '1', '2', 'c']));
}

#[test]
fn six_digit_pin() {
    let config = PasswordConfig {
        length: 6,
        use_uppercase: false,
        use_lowercase: false,
        use_digits: true,
        use_symbols: false,
        exclude_ambiguous: true,
    };
    let pin = generate_password(&config).unwrap();
    assert_eq!(pin.len(), 6);
    assert!(pin.chars().all(|c| "23456789".contains(c)));
}

#[test]
fn default_passwords_leave_out_ambiguous_characters() {
    for _ in 0..20 {
        let p = generate_default_password();
        assert!(!p.chars().any(|c| AMBIGUOUS_CHARS.contains(c)));
        assert!(p.chars().any(|c| SYMBOLS.contains(c)));
    }
}
