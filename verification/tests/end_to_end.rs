use axiom_hive_core::constitution::Constitution;
use axiom_hive_core::runtime_bridge::{interpret_output, RuntimeError};
use axiom_hive_core::supervisor::digest::content_hash;
use axiom_hive_core::supervisor::interceptor::{Interceptor, TokenStream};
use axiom_hive_core::supervisor::ledger::{verify_chain, Ledger};

fn tokenize(text: &str) -> Vec<String> {
    text.split_whitespace().map(|s| s.to_string()).collect()
}

#[test]
fn pii_is_filtered_and_the_exchange_is_recorded() {
    let mut constitution = Constitution::default();
    constitution.policy.allow_harmful_content = true;
    constitution.policy.allow_pii_leakage = false;
    let constitution = constitution.validate().unwrap();
    let interceptor = Interceptor::new(&constitution.disallowed_tokens());

    let tokens = tokenize("contact me by email or ssn now");
    assert_eq!(tokens, vec!["contact", "me", "by", "email", "or", "ssn", "now"]);
    let filtered = interceptor.filter(TokenStream { tokens: &tokens });
    assert_eq!(filtered, vec!["contact", "me", "by", "or", "now"]);

    let prompt = "how can I reach you?";
    let supervised = filtered.join(" ");
    let mut ledger = Ledger::new();
    let entry = ledger.append(prompt, &supervised);
    assert_eq!(entry.index, 0);
    assert_eq!(entry.prev_hash, "GENESIS");
    assert_eq!(
        entry.input_hash,
        "ca83a99975b63dfd35fbc06b0d14b1d55f5be7a66503b5dc4c3b299a19955140"
    );
    assert_eq!(
        entry.output_hash,
        "9596d91be931c69ead517b760a9cf7f02f53197168fec5905a67149053899c7b"
    );
    assert_eq!(
        entry.hash,
        "f9b3c0b7ffb291c0f5ce2fc4451e5a15968a83b235584cd5947bb17c0359d1bc"
    );
    assert_eq!(entry.input_hash, content_hash(prompt));
    assert_eq!(entry.output_hash, content_hash("contact me by or now"));
    assert!(verify_chain(ledger.entries()));
}

#[test]
fn default_policy_also_filters_harmful_tokens() {
    let constitution = Constitution::default().validate().unwrap();
    let interceptor = Interceptor::new(&constitution.disallowed_tokens());
    let tokens = tokenize("do not attack or kill over a phone bill");
    let filtered = interceptor.filter(TokenStream { tokens: &tokens });
    assert_eq!(filtered, vec!["do", "not", "or", "over", "a", "bill"]);
}

#[test]
fn a_failed_generation_is_still_recorded() {
    let outcome: Result<String, RuntimeError> =
        interpret_output(false, "exit status: 1".to_string(), Vec::new());
    let prompt = "anything";
    let answer = match outcome {
        Ok(text) => text,
        Err(_) => format!("[fallback] {}", prompt),
    };
    let interceptor = Interceptor::new(&Constitution::default().disallowed_tokens());
    let tokens = tokenize(&answer);
    let supervised = interceptor.filter(TokenStream { tokens: &tokens }).join(" ");
    assert_eq!(supervised, "[fallback] anything");
    let mut ledger = Ledger::new();
    ledger.append("earlier", "exchange");
    let entry = ledger.append(prompt, &supervised).clone();
    assert_eq!(entry.index, 1);
    assert_eq!(entry.output_hash, content_hash("[fallback] anything"));
    assert_eq!(entry.prev_hash, ledger.entries()[0].hash);
    assert!(verify_chain(ledger.entries()));
}
