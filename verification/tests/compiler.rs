use sextant::compiler::{CompileError, ExecutionTemplate, AdmissionChecks, Admission, IntentCompiler};
use sextant::intent::IntentType;

fn clear() -> AdmissionChecks {
    AdmissionChecks { quantity_usable: true, budget_violation: None, dust: false }
}

#[test]
fn test_hold_compilation() {
    let decision = IntentCompiler::triage(IntentType::Hold, "SOL-USDC.OKX", clear());
    assert!(matches!(decision, Admission::Hold));
}

#[test]
fn test_template_mapping() {
    let cases = vec![
        (IntentType::DeltaHedge, "DeltaHedgeTwap"),
        (IntentType::GammaScalp, "GammaScalpIoc"),
        (IntentType::TrendFollow, "TrendFollowTrailing"),
        (IntentType::MeanReversion, "MeanRevertLimit"),
        (IntentType::LiquidationCapture, "LiquidationCaptureIoc"),
        (IntentType::Hold, "Hold"),
    ];

    for (intent_type, expected) in cases {
        let template = ExecutionTemplate::from_intent(intent_type);
        assert_eq!(format!("{:?}", template), expected);
    }
    assert_eq!(ExecutionTemplate::from_intent(IntentType::Veto), ExecutionTemplate::Hold);
}

#[test]
fn admission_checks_run_in_order() {
    // Veto skips every check.
    let bad = AdmissionChecks { quantity_usable: false, budget_violation: Some("x".to_string()), dust: true };
    assert!(matches!(IntentCompiler::triage(IntentType::Veto, "NOVENUE", bad), Admission::Hold));
    // Missing venue comes before everything else.
    let bad = AdmissionChecks { quantity_usable: false, budget_violation: Some("x".to_string()), dust: true };
    assert!(matches!(
        IntentCompiler::triage(IntentType::GammaScalp, "SOL-USDC", bad),
        Admission::Reject(CompileError::InvalidInstrument)
    ));
    let bad = AdmissionChecks { quantity_usable: false, budget_violation: Some("x".to_string()), dust: true };
    assert!(matches!(
        IntentCompiler::triage(IntentType::GammaScalp, "SOL-USDC.OKX", bad),
        Admission::Reject(CompileError::InvalidQuantity)
    ));
    let over = AdmissionChecks {
        quantity_usable: true,
        budget_violation: Some("target size 200.0000 exceeds max_position 100.0000".to_string()),
        dust: true,
    };
    match IntentCompiler::triage(IntentType::DeltaHedge, "SOL-USDC.OKX", over) {
        Admission::Reject(e @ CompileError::RiskBudgetViolation(_)) => {
            assert_eq!(
                e.message(),
                "risk budget violation: target size 200.0000 exceeds max_position 100.0000"
            );
        }
        other => panic!("expected RiskBudgetViolation, got: {:?}", other),
    }
    let dust = AdmissionChecks { quantity_usable: true, budget_violation: None, dust: true };
    assert!(matches!(IntentCompiler::triage(IntentType::GammaScalp, "SOL-USDC.OKX", dust), Admission::Hold));
    assert!(matches!(
        IntentCompiler::triage(IntentType::MeanReversion, "SOL-USDC.OKX", clear()),
        Admission::Proceed(ExecutionTemplate::MeanRevertLimit)
    ));
}

#[test]
fn venue_suffix_and_messages() {
    assert!(IntentCompiler::has_venue_suffix("BTC-USDT-SWAP.OKX"));
    assert!(!IntentCompiler::has_venue_suffix("BTC-USDT-SWAP"));
    assert!(!IntentCompiler::has_venue_suffix(""));
    assert_eq!(CompileError::InvalidInstrument.message(), "invalid instrument ID (missing venue suffix)");
    assert_eq!(CompileError::InvalidQuantity.message(), "invalid quantity (non-finite, negative, or zero)");
    assert_eq!(CompileError::InvalidPrice.message(), "invalid price (could not parse mid from market state)");
}
