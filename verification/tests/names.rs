use sirpent::actors::nameserver::{roman_numerals, Nameserver};
use sirpent::net::name_service::client_nameserver;

#[test]
fn roman_numeral_values() {
    assert_eq!(roman_numerals(0), "");
    assert_eq!(roman_numerals(1), "I");
    assert_eq!(roman_numerals(4), "IIII");
    assert_eq!(roman_numerals(9), "VIIII");
    assert_eq!(roman_numerals(14), "XIIII");
    assert_eq!(roman_numerals(1987), "MDCCCCLXXXVII");
    assert_eq!(roman_numerals(2000), "MM");
}

#[test]
fn uniqueify_gives_free_names() {
    let mut ns = Nameserver::default();
    assert_eq!(ns.uniqueify("bob".to_string()), "bob");
    assert_eq!(ns.uniqueify("bob".to_string()), "bob_I");
    assert_eq!(ns.uniqueify("bob".to_string()), "bob_II");
    assert_eq!(ns.uniqueify("alice".to_string()), "alice");
    assert_eq!(ns.uniqueify("bob_I".to_string()), "bob_I_I");
    assert_eq!(ns.uniqueify("bob".to_string()), "bob_III");
}

#[test]
fn uniqueify_skips_taken_numerals() {
    let mut ns = Nameserver::default();
    assert_eq!(ns.uniqueify("eve_I".to_string()), "eve_I");
    assert_eq!(ns.uniqueify("eve".to_string()), "eve");
    assert_eq!(ns.uniqueify("eve".to_string()), "eve_II");
}

#[test]
fn name_service_agrees_with_nameserver() {
    let mut ns = Nameserver::default();
    let mut names = Vec::new();
    for _ in 0..6 {
        names.push(client_nameserver(&mut ns, "x".to_string()));
    }
    assert_eq!(names, vec!["x", "x_I", "x_II", "x_III", "x_IIII", "x_V"]);
}
