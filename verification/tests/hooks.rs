use std::sync::Arc;

use bevy_trenchbroom::hooks::Hook;

#[test]
fn config_hook_stack() {
	let mut hook: Hook<dyn Fn() -> i32 + Send + Sync> = Hook(Arc::new(|| 2));
	assert_eq!(hook(), 2);
	hook.set(|prev| Arc::new(move || prev() + 1));
	assert_eq!(hook(), 3);
}

#[test]
fn hooks_hook_stack() {
	let mut hook: Hook<dyn Fn() -> i32 + Send + Sync> = Hook(Arc::new(|| 2));
	assert_eq!(hook(), 2);
	hook.set(|prev| Arc::new(move || prev() + 1));
	assert_eq!(hook(), 3);
}

#[test]
fn hook_clone_shares_function() {
	let hook: Hook<dyn Fn() -> i32 + Send + Sync> = Hook(Arc::new(|| 7));
	let copy = hook.clone();
	assert_eq!(copy(), 7);
	assert!(Arc::ptr_eq(&hook.0, &copy.0));
}
