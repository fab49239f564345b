use shorturl::codec::encode;
use shorturl::service::db_file_name;
use shorturl::service::resolve;
use shorturl::service::mint_consume_mint;
use shorturl::service::resolve_twice_with_delete;
use shorturl::service::shorten;
use shorturl::service::shorten_then_resolve;
use shorturl::service::Config;
use shorturl::service::RedirectOutcome;
use shorturl::store::Store;
use shorturl::CODE_LENGTH;

fn config_for(shard: &str, delete_on_use: bool) -> Config {
    Config {
        url_base: String::from("http://localhost:8080/"),
        shard: String::from(shard),
        delete_on_use,
        port: 8080,
    }
}

#[test]
fn shorten_returns_code_and_public_url() {
    let config = config_for("default", false);
    let mut st = Store::create("/tmp/shorturl_t_svc_mint.db");
    let res = shorten(&mut st, &config, &String::from("https://example.com")).unwrap();
    assert!(res.code.len() >= CODE_LENGTH);
    assert_eq!(res.url, format!("http://localhost:8080/{}", res.code));
    assert_eq!(st.get(&res.code), Some(String::from("https://example.com")));
    // the entry plus the persisted counter
    assert_eq!(st.size(), 2);
}

#[test]
fn minting_is_positional() {
    let config = config_for("default", false);
    let mut st = Store::create("/tmp/shorturl_t_svc_positional.db");
    let first = shorten(&mut st, &config, &String::from("https://one.example")).unwrap();
    let second = shorten(&mut st, &config, &String::from("https://two.example")).unwrap();
    assert_eq!(first.code, encode("default", CODE_LENGTH, 0));
    assert_eq!(second.code, encode("default", CODE_LENGTH, 1));
}

#[test]
fn shorten_then_redirect_round_trip() {
    let config = config_for("default", false);
    let mut st = Store::create("/tmp/shorturl_t_svc_round_trip.db");
    let res = shorten(&mut st, &config, &String::from("https://example.com")).unwrap();
    for _ in 0..3 {
        // with delete_on_use off the redirect can be repeated indefinitely
        let out = resolve(&mut st, &res.code, false).unwrap();
        assert_eq!(
            out,
            RedirectOutcome::Redirect(String::from("https://example.com"))
        );
    }
}

#[test]
fn delete_on_use_consumes_the_code() {
    let config = config_for("default", true);
    let mut st = Store::create("/tmp/shorturl_t_svc_delete.db");
    let res = shorten(&mut st, &config, &String::from("https://example.com")).unwrap();
    let first = resolve(&mut st, &res.code, true).unwrap();
    assert_eq!(
        first,
        RedirectOutcome::Redirect(String::from("https://example.com"))
    );
    let second = resolve(&mut st, &res.code, true).unwrap();
    assert_eq!(second, RedirectOutcome::NotFound);
}

#[test]
fn unknown_code_is_not_found() {
    let mut st = Store::create("/tmp/shorturl_t_svc_not_found.db");
    let out = resolve(&mut st, "doesnotexist", false).unwrap();
    assert_eq!(out, RedirectOutcome::NotFound);
}

#[test]
fn shards_are_isolated() {
    let config_a = config_for("a", false);
    let mut store_a = Store::create("/tmp/shorturl_t_svc_shard_a.db");
    let mut store_b = Store::create("/tmp/shorturl_t_svc_shard_b.db");
    let res = shorten(&mut store_a, &config_a, &String::from("https://example.com")).unwrap();
    let out = resolve(&mut store_b, &res.code, false).unwrap();
    assert_eq!(out, RedirectOutcome::NotFound);
    let found = resolve(&mut store_a, &res.code, false).unwrap();
    assert_eq!(
        found,
        RedirectOutcome::Redirect(String::from("https://example.com"))
    );
}

#[test]
fn sequential_mints_give_distinct_codes() {
    let config = config_for("default", false);
    let mut st = Store::create("/tmp/shorturl_t_svc_sequential.db");
    let before = st.size();
    let mut codes = Vec::new();
    for i in 0..25 {
        let url = format!("https://example.com/{}", i);
        let res = shorten(&mut st, &config, &url).unwrap();
        codes.push(res.code);
    }
    // 25 entries plus the persisted counter
    assert_eq!(st.size(), before + 26);
    for i in 0..codes.len() {
        for j in (i + 1)..codes.len() {
            assert_ne!(codes[i], codes[j]);
        }
    }
}

#[test]
fn duplicate_urls_get_distinct_codes() {
    let config = config_for("default", false);
    let mut st = Store::create("/tmp/shorturl_t_svc_duplicate.db");
    let first = shorten(&mut st, &config, &String::from("https://example.com")).unwrap();
    let second = shorten(&mut st, &config, &String::from("https://example.com")).unwrap();
    assert_ne!(first.code, second.code);
    // two entries plus the persisted counter
    assert_eq!(st.size(), 3);
}

#[test]
fn round_trip_law_function_redirects() {
    let config = config_for("default", false);
    let mut st = Store::create("/tmp/shorturl_t_svc_law_round_trip.db");
    let (res, out) =
        shorten_then_resolve(&mut st, &config, &String::from("https://example.com")).unwrap();
    assert_eq!(
        out,
        RedirectOutcome::Redirect(String::from("https://example.com"))
    );
    assert_eq!(st.get(&res.code), Some(String::from("https://example.com")));
}

#[test]
fn delete_law_function_redirects_once() {
    let config = config_for("default", true);
    let mut st = Store::create("/tmp/shorturl_t_svc_law_delete.db");
    let res = shorten(&mut st, &config, &String::from("https://example.com")).unwrap();
    let (first, second) = resolve_twice_with_delete(&mut st, &res.code).unwrap();
    assert_eq!(
        first,
        RedirectOutcome::Redirect(String::from("https://example.com"))
    );
    assert_eq!(second, RedirectOutcome::NotFound);
}

#[test]
fn db_file_name_appends_extension() {
    assert_eq!(db_file_name("default"), "default.db");
    assert_eq!(db_file_name("a"), "a.db");
}

#[test]
fn default_config_matches_stock_options() {
    let config = Config::default();
    assert_eq!(config.url_base, "http://localhost:8080/");
    assert_eq!(config.shard, "default");
    assert!(!config.delete_on_use);
    assert_eq!(config.port, 8080);
}

#[test]
fn codes_are_not_reused_after_deletion() {
    let config = config_for("default", true);
    let mut st = Store::create("/tmp/shorturl_t_svc_no_reuse.db");
    let first = shorten(&mut st, &config, &String::from("https://one.example")).unwrap();
    let second = shorten(&mut st, &config, &String::from("https://two.example")).unwrap();
    let out = resolve(&mut st, &first.code, true).unwrap();
    assert_eq!(
        out,
        RedirectOutcome::Redirect(String::from("https://one.example"))
    );
    let third = shorten(&mut st, &config, &String::from("https://three.example")).unwrap();
    assert_ne!(third.code, first.code);
    assert_ne!(third.code, second.code);
    assert_eq!(third.code, encode("default", CODE_LENGTH, 2));
}

#[test]
fn no_reuse_law_function() {
    let config = config_for("default", true);
    let mut st = Store::create("/tmp/shorturl_t_svc_law_no_reuse.db");
    let (first, second) = mint_consume_mint(
        &mut st,
        &config,
        &String::from("https://one.example"),
        &String::from("https://two.example"),
    )
    .unwrap();
    assert_ne!(first.code, second.code);
    assert_eq!(resolve(&mut st, &first.code, true).unwrap(), RedirectOutcome::NotFound);
}

#[test]
fn counter_key_never_resolves() {
    let config = config_for("default", false);
    let mut st = Store::create("/tmp/shorturl_t_svc_counter_hidden.db");
    shorten(&mut st, &config, &String::from("https://example.com")).unwrap();
    let out = resolve(&mut st, "__next_id", false).unwrap();
    assert_eq!(out, RedirectOutcome::NotFound);
    let out_deleting = resolve(&mut st, "__next_id", true).unwrap();
    assert_eq!(out_deleting, RedirectOutcome::NotFound);
}

#[test]
fn counter_persists_across_reopen() {
    let config = config_for("default", false);
    {
        let mut st = Store::create("/tmp/shorturl_t_svc_counter_persist.db");
        shorten(&mut st, &config, &String::from("https://one.example")).unwrap();
        shorten(&mut st, &config, &String::from("https://two.example")).unwrap();
    }
    let mut reopened = Store::open("/tmp/shorturl_t_svc_counter_persist.db");
    let third = shorten(&mut reopened, &config, &String::from("https://three.example")).unwrap();
    assert_eq!(third.code, encode("default", CODE_LENGTH, 2));
}
