use waltzgps::config::{ApiKeySource, Provider};
use waltzgps::keys::{
    finish_key, read_key_source, resolve_key, KeyCache, KeyReading, KeyState, KEY_FAILED_BACKOFF,
};

#[test]
fn reads_literal_source() {
    assert_eq!(
        read_key_source(&ApiKeySource::Literal("  secret  ".into()), KeyReading::Nothing),
        Some("secret".into())
    );
}

fn provider_with(source: ApiKeySource) -> Provider {
    Provider {
        name: "t".into(),
        url: "https://s/{z}/{x}/{y}.png".into(),
        api_key_source: Some(source),
        ..Provider::default()
    }
}

#[test]
fn resolve_key_not_needed_without_source() {
    let provider = Provider {
        name: "t".into(),
        url: "https://s/{z}/{x}/{y}.png".into(),
        ..Provider::default()
    };
    let mut key_cache = KeyCache::new();
    assert!(matches!(resolve_key(&mut key_cache, 0, &provider, 0), (KeyState::NotNeeded, None)));
}

#[test]
fn file_text_is_trimmed() {
    let source = ApiKeySource::File("/tmp/key.txt".into());
    assert_eq!(
        read_key_source(&source, KeyReading::FileText("file-secret\n".into())),
        Some("file-secret".into())
    );
    assert_eq!(read_key_source(&source, KeyReading::FileText(" \n".into())), None);
}

#[test]
fn missing_file_gives_no_key() {
    assert_eq!(read_key_source(&ApiKeySource::File("/none".into()), KeyReading::Nothing), None);
}

fn output(success: bool, stdout: &[u8]) -> KeyReading {
    KeyReading::CommandOutput { success, stdout: stdout.to_vec() }
}

#[test]
fn command_output_is_trimmed_text() {
    let source = ApiKeySource::Command("echo cmd-secret".into());
    assert_eq!(read_key_source(&source, output(true, b"cmd-secret\n")), Some("cmd-secret".into()));
    assert_eq!(
        read_key_source(&source, output(true, "schlüssel\u{2003}".as_bytes())),
        Some("schlüssel".into())
    );
}

#[test]
fn failed_blank_or_garbled_commands_give_no_key() {
    let source = ApiKeySource::Command("exit 1".into());
    assert_eq!(read_key_source(&source, output(false, b"cmd-secret\n")), None);
    assert_eq!(read_key_source(&source, output(true, b"")), None);
    assert_eq!(read_key_source(&source, output(true, b" \t\n")), None);
    assert_eq!(read_key_source(&source, output(true, &[0xff, 0x41])), None);
    assert_eq!(read_key_source(&source, KeyReading::Nothing), None);
}

#[test]
fn readings_answer_their_own_kind_of_source_only() {
    let file = ApiKeySource::File("/k".into());
    let command = ApiKeySource::Command("k".into());
    assert_eq!(read_key_source(&file, output(true, b"x")), None);
    assert_eq!(read_key_source(&command, KeyReading::FileText("x".into())), None);
}

#[test]
fn literals_are_answered_at_once() {
    let mut keys = KeyCache::new();
    let good = provider_with(ApiKeySource::Literal(" k ".into()));
    assert!(matches!(resolve_key(&mut keys, 0, &good, 5), (KeyState::Ready(k), None) if k == "k"));
    let blank = provider_with(ApiKeySource::Literal("  ".into()));
    assert!(matches!(resolve_key(&mut keys, 0, &blank, 5), (KeyState::Failed, None)));
}

/// Asks for a key that has to be read, and returns the ticket.
fn started(keys: &mut KeyCache, idx: usize, p: &Provider, now: u128) -> u64 {
    match resolve_key(keys, idx, p, now) {
        (KeyState::Failed, Some(ticket)) => ticket,
        other => panic!("{other:?}"),
    }
}

#[test]
fn a_command_is_read_once_and_its_key_kept() {
    let p = provider_with(ApiKeySource::Command("echo resolved-key".into()));
    let mut keys = KeyCache::new();
    assert!(keys.has_ticket());
    // The first request starts a reading and reports that nothing is there.
    let ticket = started(&mut keys, 0, &p, 0);
    // So do those that come in meanwhile, without another reading.
    for now in [0, 1, 1_000_000_000_000] {
        assert!(matches!(resolve_key(&mut keys, 0, &p, now), (KeyState::Failed, None)));
    }
    // Another provider has a reading of its own.
    let other = started(&mut keys, 1, &p, 0);
    assert_ne!(ticket, other);

    finish_key(&mut keys, 0, ticket, Some("resolved-key".into()), 3);
    for now in [3, u128::MAX] {
        assert!(matches!(
            resolve_key(&mut keys, 0, &p, now),
            (KeyState::Ready(k), None) if k == "resolved-key"
        ));
    }
}

#[test]
fn a_failure_is_retried_only_after_the_backoff() {
    let p = provider_with(ApiKeySource::File("/late".into()));
    let mut keys = KeyCache::new();
    let first = started(&mut keys, 0, &p, 7);
    finish_key(&mut keys, 0, first, None, 100);
    assert!(matches!(resolve_key(&mut keys, 0, &p, 100), (KeyState::Failed, None)));
    let almost = 100 + KEY_FAILED_BACKOFF - 1;
    assert!(matches!(resolve_key(&mut keys, 0, &p, almost), (KeyState::Failed, None)));
    let second = started(&mut keys, 0, &p, almost + 1);
    assert_ne!(first, second);
    assert!(matches!(resolve_key(&mut keys, 0, &p, almost + 1), (KeyState::Failed, None)));
    finish_key(&mut keys, 0, second, Some("now-available".into()), almost + 2);
    assert!(matches!(
        resolve_key(&mut keys, 0, &p, almost + 2),
        (KeyState::Ready(k), None) if k == "now-available"
    ));
    assert_eq!(KEY_FAILED_BACKOFF, 15_000_000_000);
}

#[test]
fn answers_that_nobody_waits_for_are_ignored() {
    let p = provider_with(ApiKeySource::Command("c".into()));
    let mut keys = KeyCache::new();
    let old = started(&mut keys, 0, &p, 0);
    keys.clear();
    // Nobody waits for any answer.
    finish_key(&mut keys, 0, old, Some("old".into()), 1);
    let new = started(&mut keys, 0, &p, 2);
    assert_ne!(old, new);
    // Another one is waited for.
    finish_key(&mut keys, 0, old, Some("old".into()), 3);
    assert!(matches!(resolve_key(&mut keys, 0, &p, 4), (KeyState::Failed, None)));
    // It is waited for elsewhere.
    finish_key(&mut keys, 1, new, Some("new".into()), 5);
    assert!(matches!(resolve_key(&mut keys, 0, &p, 6), (KeyState::Failed, None)));
    finish_key(&mut keys, 0, new, Some("new".into()), 7);
    // An answer is taken once.
    finish_key(&mut keys, 0, new, None, 8);
    assert!(matches!(resolve_key(&mut keys, 0, &p, 9), (KeyState::Ready(k), None) if k == "new"));
}
