use vsq::filters::Filters;

#[test]
fn filter_byte_form_is_nul_terminated() {
    let f = Filters { app_id: 252490, no_password: false };
    assert_eq!(f.as_bytes(), b"\\appid\\252490\0".to_vec());
}

#[test]
fn filter_string_form_has_no_terminator() {
    let f = Filters { app_id: 252490, no_password: false };
    assert_eq!(f.as_string(), "\\appid\\252490".to_string());
    assert_ne!(f.as_string().into_bytes(), f.as_bytes());
}

#[test]
fn filter_no_password_clause() {
    let f = Filters { app_id: 4000, no_password: true };
    assert_eq!(f.as_string(), "\\appid\\4000\\password\\0".to_string());
    assert_eq!(f.as_bytes(), b"\\appid\\4000\\password\\0\0".to_vec());
    assert_eq!(f.fragment_bytes(), b"\\appid\\4000\\password\\0".to_vec());
}

#[test]
fn filter_zero_app_id() {
    let f = Filters { app_id: 0, no_password: false };
    assert_eq!(f.as_string(), "\\appid\\0".to_string());
}
