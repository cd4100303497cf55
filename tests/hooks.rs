use sr_core::hooks::HookContext;

#[test]
fn hook_context_set_replaces_and_appends() {
    let ctx = HookContext::new().set("A", "1").set("B", "2").set("A", "3");
    assert_eq!(ctx.env, vec![("A".to_string(), "3".to_string()), ("B".to_string(), "2".to_string())]);
}
