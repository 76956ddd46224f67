use reign_router::plugin::RedisPlugin;

#[test]
fn redis_plugin_keeps_its_url() {
    let plugin = RedisPlugin::new("redis://127.0.0.1:6379");
    assert_eq!(plugin.url(), "redis://127.0.0.1:6379");
    let owned = RedisPlugin::new(String::from("redis://cache/1"));
    assert_eq!(owned.url(), "redis://cache/1");
}
