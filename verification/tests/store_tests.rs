use shorturl::store::Store;

#[test]
fn fresh_store_is_empty() {
    let st = Store::create("/tmp/shorturl_t_store_fresh.db");
    assert_eq!(st.size(), 0);
    assert_eq!(st.get("anything"), None);
}

#[test]
fn put_then_get_returns_url() {
    let mut st = Store::create("/tmp/shorturl_t_store_put_get.db");
    st.put("abc123", &String::from("https://example.com")).unwrap();
    assert_eq!(st.get("abc123"), Some(String::from("https://example.com")));
    assert_eq!(st.size(), 1);
}

#[test]
fn put_overwrites_existing_code() {
    let mut st = Store::create("/tmp/shorturl_t_store_overwrite.db");
    st.put("abc123", &String::from("https://one.example")).unwrap();
    st.put("abc123", &String::from("https://two.example")).unwrap();
    assert_eq!(st.size(), 1);
    assert_eq!(st.get("abc123"), Some(String::from("https://two.example")));
}

#[test]
fn remove_deletes_entry() {
    let mut st = Store::create("/tmp/shorturl_t_store_remove.db");
    st.put("abc123", &String::from("https://example.com")).unwrap();
    assert_eq!(st.remove("abc123"), Ok(true));
    assert_eq!(st.get("abc123"), None);
    assert_eq!(st.size(), 0);
}

#[test]
fn remove_of_absent_code_is_a_noop() {
    let mut st = Store::create("/tmp/shorturl_t_store_remove_absent.db");
    assert_eq!(st.remove("missing"), Ok(false));
    assert_eq!(st.size(), 0);
}

#[test]
fn open_reloads_persisted_entries() {
    {
        let mut st = Store::create("/tmp/shorturl_t_store_persist.db");
        st.put("abc123", &String::from("https://example.com")).unwrap();
    }
    let reopened = Store::open("/tmp/shorturl_t_store_persist.db");
    assert_eq!(reopened.size(), 1);
    assert_eq!(
        reopened.get("abc123"),
        Some(String::from("https://example.com"))
    );
}

#[test]
fn open_of_missing_file_gives_empty_store() {
    let st = Store::open("/tmp/shorturl_t_store_never_written.db");
    assert_eq!(st.size(), 0);
    assert_eq!(st.get("abc123"), None);
}

#[test]
fn stores_with_different_files_are_independent() {
    let mut a = Store::create("/tmp/shorturl_t_store_iso_a.db");
    let b = Store::create("/tmp/shorturl_t_store_iso_b.db");
    a.put("abc123", &String::from("https://example.com")).unwrap();
    assert_eq!(a.get("abc123"), Some(String::from("https://example.com")));
    assert_eq!(b.get("abc123"), None);
}

#[test]
fn numbers_are_stored_and_typed_apart_from_strings() {
    let mut st = Store::create("/tmp/shorturl_t_store_numbers.db");
    st.put_number("counter", 41).unwrap();
    assert_eq!(st.get_number("counter"), Some(41));
    // a number is not a URL entry, and a URL entry is not a number
    assert_eq!(st.get("counter"), None);
    st.put("abc123", &String::from("https://example.com")).unwrap();
    assert_eq!(st.get_number("abc123"), None);
    // overwriting a number with a string displaces it
    st.put("counter", &String::from("https://other.example")).unwrap();
    assert_eq!(st.get_number("counter"), None);
    assert_eq!(st.get("counter"), Some(String::from("https://other.example")));
    assert_eq!(st.size(), 2);
}
