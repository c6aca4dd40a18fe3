use discord_assist::errors::PluginError;
use discord_assist::router::{
    denial_message, unknown_command_message, DispatchAction, ProviderOutcome, Router,
};

#[test]
fn fallback_order_invokes_until_claim() {
    // Providers [A, B, C]; only B claims the command: A is asked, then B,
    // and C never sees it.
    let router = Router::new(42, 3);
    let (mut d, action) = router.begin(42);
    let first = match action {
        DispatchAction::Invoke(i) => i,
        _ => panic!("authorized dispatch must start with an invocation"),
    };
    assert_eq!(first, 0);
    let action = router.next(&mut d, ProviderOutcome::NotHandled);
    let second = match action {
        DispatchAction::Invoke(i) => i,
        _ => panic!("after a pass, the next provider is invoked"),
    };
    assert_eq!(second, 1);
    let action = router.next(&mut d, ProviderOutcome::Handled);
    assert!(matches!(action, DispatchAction::Finished));
    // The dispatch is done: no action ever names provider 2.
}

#[test]
fn unauthorized_never_reaches_providers() {
    let router = Router::new(42, 3);
    let (_d, action) = router.begin(7);
    assert!(matches!(action, DispatchAction::RespondDenied));
}

#[test]
fn no_claim_yields_unknown_command() {
    let router = Router::new(1, 2);
    let (mut d, action) = router.begin(1);
    assert!(matches!(action, DispatchAction::Invoke(0)));
    assert!(matches!(router.next(&mut d, ProviderOutcome::NotHandled), DispatchAction::Invoke(1)));
    assert!(matches!(
        router.next(&mut d, ProviderOutcome::NotHandled),
        DispatchAction::RespondUnknown
    ));
}

#[test]
fn no_providers_is_unknown_command() {
    let router = Router::new(1, 0);
    let (_d, action) = router.begin(1);
    assert!(matches!(action, DispatchAction::RespondUnknown));
}

#[test]
fn failure_surfaces_the_category_message() {
    let router = Router::new(1, 2);
    let (mut d, action) = router.begin(1);
    assert!(matches!(action, DispatchAction::Invoke(0)));
    let action = router.next(
        &mut d,
        ProviderOutcome::Failed(PluginError::ApiError("connection refused".to_string())),
    );
    match action {
        DispatchAction::RespondError(e) => {
            assert_eq!(e.user_message(), "A plugin API request failed. Check bot logs for details.");
            assert_eq!(e.detail(), "connection refused");
        }
        _ => panic!("a claimed failure ends the dispatch with an error"),
    }
}

#[test]
fn fixed_replies() {
    assert_eq!(denial_message(), "You are not authorized to use this bot.");
    assert_eq!(unknown_command_message(), "Unknown command.");
}

#[test]
fn error_category_messages() {
    assert_eq!(
        PluginError::ConfigError("x".to_string()).user_message(),
        "Plugin configuration error. Check bot logs for details."
    );
    assert_eq!(
        PluginError::DiscordError("x".to_string()).user_message(),
        "Discord API error. Check bot logs for details."
    );
    assert_eq!(
        PluginError::Other("x".to_string()).user_message(),
        "Something went wrong. Check bot logs for details."
    );
}
