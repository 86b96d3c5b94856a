use ore_stats::rpc_naming::{extract_api_key_id, extract_provider_name};

#[test]
fn test_extract_provider_name() {
    assert_eq!(extract_provider_name("https://mainnet.helius-rpc.com"), "helius");
    assert_eq!(extract_provider_name("https://rpc.flux.dev"), "flux");
    assert_eq!(extract_provider_name("https://api.quicknode.com/xxx"), "quicknode");
    assert_eq!(extract_provider_name("http://localhost:8899"), "localhost");
    assert_eq!(extract_provider_name("https://some-random-rpc.com"), "unknown");
}

#[test]
fn test_extract_api_key_id() {
    assert_eq!(extract_api_key_id("https://rpc.helius.xyz?api-key=abcdefghij123"), "abcdefgh...");
    assert_eq!(extract_api_key_id("https://rpc.helius.xyz"), "");
    assert_eq!(extract_api_key_id("https://rpc.helius.xyz?api_key=12345678"), "12345678...");
}

#[test]
fn provider_name_covers_every_known_provider() {
    assert_eq!(extract_provider_name("https://eth.alchemy.com"), "alchemy");
    assert_eq!(extract_provider_name("https://x.triton.one"), "triton");
    assert_eq!(extract_provider_name("https://x.rpcpool.com"), "rpcpool");
    assert_eq!(extract_provider_name("http://127.0.0.1:8899"), "localhost");
    // The first known provider in the list wins.
    assert_eq!(extract_provider_name("https://flux.helius.dev"), "helius");
}

#[test]
fn api_key_id_stops_at_next_parameter() {
    assert_eq!(extract_api_key_id("https://a.b?api-key=abc&x=1"), "abc");
    assert_eq!(extract_api_key_id("https://a.b?api-key=abcdefgh&x=1"), "abcdefgh...");
    assert_eq!(extract_api_key_id("https://a.b?api-key="), "");
    // The dashed form is preferred over the underscored one.
    assert_eq!(extract_api_key_id("https://a.b?api_key=zzzzzzzzz&api-key=12"), "12");
}
