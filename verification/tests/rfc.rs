use chatroom::{assemble_rfc, can_cut_at, compute_rfc, cut_at, form_is_usable, split_on, FormRfc};

fn form(p: &str, m: &str, n: &str, d: &str) -> FormRfc {
    FormRfc {
        ap_pat: p.to_string(),
        ap_mat: m.to_string(),
        nombre: n.to_string(),
        nacimiento: d.to_string(),
    }
}

#[test]
fn split_on_dash() {
    assert_eq!(split_on("1990-05-17", '-'), vec!["1990", "05", "17"]);
    assert_eq!(split_on("", '-'), vec![""]);
    assert_eq!(split_on("-a-", '-'), vec!["", "a", ""]);
    assert_eq!(split_on("ñ-ü", '-'), vec!["ñ", "ü"]);
}

#[test]
fn cut_at_bytes() {
    assert_eq!(cut_at("garcia", 2), ("ga", "rcia"));
    assert_eq!(cut_at("ñandú", 2), ("ñ", "andú"));
    assert!(can_cut_at("ab", 2));
    assert!(!can_cut_at("a", 2));
    assert!(!can_cut_at("ñ", 1));
}

#[test]
fn assemble_exact() {
    assert_eq!(assemble_rfc("GA", "L", "J", "1990-05-17", b'X', b'B', 3), "GALJ170590XB3");
    assert_eq!(assemble_rfc("", "", "", "2001-1-2-9", b'A', b'Y', 0), "2101AY0");
}

#[test]
fn usable_forms() {
    assert!(form_is_usable(&form("garcia", "lopez", "juan", "1990-05-17")));
    assert!(!form_is_usable(&form("g", "lopez", "juan", "1990-05-17")));
    assert!(!form_is_usable(&form("garcia", "", "juan", "1990-05-17")));
    assert!(!form_is_usable(&form("garcia", "lopez", "ñu", "1990-05-17")));
    assert!(!form_is_usable(&form("garcia", "lopez", "juan", "1990-05")));
    assert!(!form_is_usable(&form("garcia", "lopez", "juan", "1-05-17")));
    assert!(form_is_usable(&form("ñu", "lopez", "juan", "1990-05-17")));
}

#[test]
fn compute_rfc_shape() {
    for _ in 0..50 {
        let r = compute_rfc(&form("garcia", "lopez", "juan", "1990-05-17"));
        assert_eq!(r.len(), 13);
        assert!(r.starts_with("GALJ170590"));
        let tail: Vec<char> = r.chars().skip(10).collect();
        assert!(('A'..='Y').contains(&tail[0]));
        assert!(('A'..='Y').contains(&tail[1]));
        assert!(('0'..='8').contains(&tail[2]));
    }
}

#[test]
fn compute_rfc_uppercases_unicode() {
    let r = compute_rfc(&form("ñu", "ortiz", "eva", "2000-12-31"));
    assert!(r.starts_with("ÑOE311200"));
}

#[test]
fn compute_rfc_letters_vary() {
    let mut seen = std::collections::HashSet::new();
    for _ in 0..200 {
        let r = compute_rfc(&form("garcia", "lopez", "juan", "1990-05-17"));
        let tail: Vec<char> = r.chars().skip(10).collect();
        seen.insert(tail[0]);
        seen.insert(tail[1]);
    }
    assert!(seen.len() > 1);
}
