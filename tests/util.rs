use mcmod::util::{
    default_mod_name, derive_class_name, neoforge_major, package_to_path, to_pascal_case,
    validate_mod_id, validate_package,
};
use mcmod::error::McmodError;

#[test]
fn test_validate_mod_id() {
    assert!(validate_mod_id("mymod").is_ok());
    assert!(validate_mod_id("my_mod").is_ok());
    assert!(validate_mod_id("mod123").is_ok());
    assert!(validate_mod_id("a").is_ok());

    assert!(validate_mod_id("").is_err());
    assert!(validate_mod_id("MyMod").is_err());
    assert!(validate_mod_id("1mod").is_err());
    assert!(validate_mod_id("my-mod").is_err());
    assert!(validate_mod_id("_mod").is_err());
}

#[test]
fn test_validate_package() {
    assert!(validate_package("com.example.mymod").is_ok());
    assert!(validate_package("com.example").is_ok());
    assert!(validate_package("mymod").is_ok());

    assert!(validate_package("").is_err());
    assert!(validate_package("Com.example").is_err());
    assert!(validate_package("com..example").is_err());
    assert!(validate_package(".com").is_err());
    assert!(validate_package("com.").is_err());
    assert!(validate_package("com.1example").is_err());
}

#[test]
fn test_to_pascal_case() {
    assert_eq!(to_pascal_case("my_cool_mod"), "MyCoolMod");
    assert_eq!(to_pascal_case("testmod"), "Testmod");
    assert_eq!(to_pascal_case("a_b_c"), "ABC");
    assert_eq!(to_pascal_case("hello"), "Hello");
}

#[test]
fn test_package_to_path() {
    assert_eq!(package_to_path("com.example.mymod"), "com/example/mymod");
    assert_eq!(package_to_path("mymod"), "mymod");
}

#[test]
fn test_derive_class_name() {
    assert_eq!(derive_class_name("my_mod"), "MyModMod");
    assert_eq!(derive_class_name("testmod"), "TestmodMod");
    assert_eq!(derive_class_name("cool_stuff"), "CoolStuffMod");
}

#[test]
fn test_neoforge_major() {
    assert_eq!(neoforge_major("21.4.156"), "21.4");
    assert_eq!(neoforge_major("21.4"), "21.4");
    assert_eq!(neoforge_major("21"), "21");
}

#[test]
fn invalid_ids_carry_the_input() {
    assert_eq!(validate_mod_id("My-Mod"), Err(McmodError::InvalidModId("My-Mod".to_string())));
    assert_eq!(validate_package("a..b"), Err(McmodError::InvalidPackage("a..b".to_string())));
}

#[test]
fn pascal_case_skips_empty_parts() {
    assert_eq!(to_pascal_case("__my__mod_"), "MyMod");
    assert_eq!(to_pascal_case(""), "");
}

#[test]
fn default_name_is_title_words() {
    assert_eq!(default_mod_name("my_cool_mod"), "My Cool Mod");
    assert_eq!(default_mod_name("mymod"), "Mymod");
    assert_eq!(default_mod_name("a__b"), "A B");
}
