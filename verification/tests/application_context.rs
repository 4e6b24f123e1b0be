use next_web::context::multicaster::{choose_multicaster, MulticasterChoice};
use next_web::context::lifecycle::{
    ContextLifecycle, ALREADY_REFRESHED_MESSAGE, CLOSED_MESSAGE, REFRESH_CLOSED_MESSAGE,
};
use next_web::context::listeners::ListenerRegistry;
use next_web::context::messages::{message_from_codes, message_or_default, resolve_message};
use next_web::context::providers::{
    disposition, resolve_step, Disposition, ProviderPolicy, Registration, ResolveStep, Scope,
};

#[test]
fn a_new_context_is_inactive_and_open() {
    let lifecycle = ContextLifecycle::new();

    assert!(!lifecycle.is_active());
    assert!(!lifecycle.is_closed());
    assert!(lifecycle.check_not_closed().is_ok());
    assert_eq!(
        lifecycle.check_active("restart").unwrap_err().to_string(),
        "cannot restart an application context that is not active"
    );
    assert_eq!(
        lifecycle.pause().unwrap_err().to_string(),
        "cannot pause an application context that is not active"
    );
}

#[test]
fn a_context_is_refreshed_only_once() {
    let mut lifecycle = ContextLifecycle::default();

    assert!(lifecycle.refresh().is_ok());
    assert!(lifecycle.is_active());
    assert!(lifecycle.restart().is_ok());
    assert!(lifecycle.pause().is_ok());

    let error = lifecycle.refresh().unwrap_err();
    assert_eq!(error.to_string(), ALREADY_REFRESHED_MESSAGE);
    assert!(lifecycle.is_active());
}

#[test]
fn closing_is_idempotent_and_final() {
    let mut lifecycle = ContextLifecycle::new();
    lifecycle.refresh().unwrap();

    assert!(lifecycle.close());
    assert!(lifecycle.is_closed());
    assert!(!lifecycle.is_active());
    assert!(!lifecycle.close());
    assert!(lifecycle.is_closed());

    assert_eq!(lifecycle.refresh().unwrap_err().to_string(), REFRESH_CLOSED_MESSAGE);
    assert_eq!(lifecycle.check_not_closed().unwrap_err().to_string(), CLOSED_MESSAGE);
}

#[test]
fn the_shutdown_hook_closes_the_context() {
    let mut lifecycle = ContextLifecycle::new();
    lifecycle.refresh().unwrap();
    lifecycle.mark_closed();

    assert!(lifecycle.is_closed());
    assert!(!lifecycle.is_active());
    assert!(!lifecycle.close());
}

#[test]
fn a_listener_of_the_same_id_replaces_the_previous_one_in_place() {
    let mut registry: ListenerRegistry<u32> = ListenerRegistry::new();
    registry.add("a".to_owned(), 1);
    registry.add("b".to_owned(), 2);
    registry.add("a".to_owned(), 3);

    assert_eq!(registry.len(), 2);
    assert_eq!(
        registry.entries(),
        &vec![("a".to_owned(), 3), ("b".to_owned(), 2)]
    );
    assert_eq!(registry.get("a"), Some(&3));
    assert_eq!(registry.get("c"), None);
}

#[test]
fn a_removed_listener_is_gone_and_the_others_keep_their_order() {
    let mut registry: ListenerRegistry<u32> = ListenerRegistry::new();
    registry.add("a".to_owned(), 1);
    registry.add("b".to_owned(), 2);
    registry.add("c".to_owned(), 3);

    registry.remove("b");
    registry.remove("missing");

    assert_eq!(
        registry.entries(),
        &vec![("a".to_owned(), 1), ("c".to_owned(), 3)]
    );
    assert_eq!(registry.get("b"), None);

    registry.clear();
    assert_eq!(registry.len(), 0);
}

#[test]
fn resolving_starts_with_the_existing_instance() {
    assert_eq!(resolve_step(true, None, false), ResolveStep::Cached);
    assert_eq!(resolve_step(true, Some(Scope::SingleOwner), true), ResolveStep::Cached);
    assert_eq!(resolve_step(false, None, false), ResolveStep::Missing);
    assert_eq!(resolve_step(false, Some(Scope::SingleOwner), false), ResolveStep::SingleOwner);
    assert_eq!(resolve_step(false, Some(Scope::Singleton), true), ResolveStep::Circular);
    assert_eq!(resolve_step(false, Some(Scope::Transient), true), ResolveStep::Circular);
    assert_eq!(resolve_step(false, Some(Scope::Singleton), false), ResolveStep::Build);
    assert_eq!(resolve_step(false, Some(Scope::Transient), false), ResolveStep::Build);
}

#[test]
fn a_singleton_is_kept_and_a_transient_instance_is_not() {
    assert_eq!(disposition(Scope::Transient, true), Disposition::Returned);
    assert_eq!(disposition(Scope::Transient, false), Disposition::Returned);
    assert_eq!(disposition(Scope::Singleton, true), Disposition::StoredAndReturned);
    assert_eq!(disposition(Scope::Singleton, false), Disposition::Stored);
}

#[test]
fn a_provider_is_rejected_only_when_it_may_not_override() {
    let mut policy = ProviderPolicy::new();

    assert_eq!(
        policy.registration(false, false, Scope::Singleton, true),
        Registration::Registered { eager: false }
    );

    policy.set_allow_override(false);

    assert_eq!(
        policy.registration(false, false, Scope::Singleton, true),
        Registration::Rejected
    );
    assert_eq!(
        policy.registration(false, false, Scope::Singleton, false),
        Registration::Registered { eager: false }
    );
}

#[test]
fn only_singletons_are_created_eagerly_by_default() {
    let mut policy = ProviderPolicy::default();

    assert_eq!(
        policy.registration(true, false, Scope::Singleton, false),
        Registration::Registered { eager: true }
    );
    assert_eq!(
        policy.registration(false, true, Scope::SingleOwner, false),
        Registration::Registered { eager: true }
    );
    assert_eq!(
        policy.registration(true, true, Scope::Transient, false),
        Registration::Registered { eager: false }
    );

    policy.allow_only_single_eager_create = false;
    policy.eager_create = true;

    assert_eq!(
        policy.registration(false, false, Scope::Transient, false),
        Registration::Registered { eager: true }
    );
}

#[test]
fn the_providers_of_the_attribute_macros_are_loaded_once() {
    let mut policy = ProviderPolicy::new();

    assert!(policy.begin_auto_providers());
    assert!(!policy.begin_auto_providers());
    assert!(policy.auto_providers_loaded);
}

#[test]
fn a_message_comes_from_the_context_then_from_its_parent() {
    assert_eq!(
        resolve_message(Some("own".to_owned()), Some("parent".to_owned())),
        Some("own".to_owned())
    );
    assert_eq!(
        resolve_message(None, Some("parent".to_owned())),
        Some("parent".to_owned())
    );
    assert_eq!(resolve_message(None, None), None);
}

#[test]
fn a_resolvable_takes_its_first_resolved_code_then_its_default() {
    let codes = vec!["first".to_owned(), "second".to_owned(), "third".to_owned()];

    assert_eq!(
        message_from_codes(
            vec![None, Some("second message".to_owned()), Some("third message".to_owned())],
            Some("default".to_owned()),
            &codes,
        ),
        Ok("second message".to_owned())
    );
    assert_eq!(
        message_from_codes(vec![None, None, None], Some("default".to_owned()), &codes),
        Ok("default".to_owned())
    );
    assert_eq!(
        message_from_codes(vec![None, None, None], None, &codes),
        Err("third".to_owned())
    );
    assert_eq!(message_from_codes(Vec::new(), None, &Vec::new()), Err(String::new()));
}

#[test]
fn falls_back_to_the_default_message_of_a_code() {
    assert_eq!(
        message_or_default(Some("found".to_owned()), Some("default")),
        Some("found".to_owned())
    );
    assert_eq!(message_or_default(None, Some("default")), Some("default".to_owned()));
    assert_eq!(message_or_default(None, None), None);
}

#[test]
fn the_installed_multicaster_wins_then_the_existing_one() {
    assert_eq!(choose_multicaster(true, true), MulticasterChoice::UseInstalled);
    assert_eq!(choose_multicaster(true, false), MulticasterChoice::UseInstalled);
    assert_eq!(choose_multicaster(false, true), MulticasterChoice::ReuseExisting);
    assert_eq!(choose_multicaster(false, false), MulticasterChoice::CreateNew);
    assert!(!MulticasterChoice::UseInstalled.registers());
    assert!(MulticasterChoice::ReuseExisting.registers());
    assert!(MulticasterChoice::CreateNew.registers());
}
