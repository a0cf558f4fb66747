use ralphtown::api::{
    default_scan_depth, list_backends, list_presets, CheckoutRequest, CommitRequest,
    LogQueryParams, ResetRequest,
};
use ralphtown::error::AppError;
use ralphtown::text::{is_blank, repo_name_from_path, str_eq};
use ralphtown::uid::Uid;

#[test]
fn test_list_backends() {
    let result = list_backends();
    assert!(!result.backends.is_empty());

    // Verify the vendor API backend exists
    let first = result.backends.iter().find(|b| b.id == "api");
    assert!(first.is_some());
    assert_eq!(first.unwrap().name, "Vendor API");
    assert_eq!(result.backends.len(), 3);
}

#[test]
fn test_list_presets() {
    let result = list_presets();
    assert!(!result.presets.is_empty());

    // Verify default preset exists
    let default = result.presets.iter().find(|p| p.id == "default");
    assert!(default.is_some());

    // Verify tdd preset exists
    let tdd = result.presets.iter().find(|p| p.id == "tdd-red-green");
    assert!(tdd.is_some());
    assert_eq!(result.presets.len(), 6);
}

#[test]
fn test_default_scan_depth() {
    assert_eq!(default_scan_depth(), 2);
}

#[test]
fn test_effective_log_limit() {
    assert_eq!(LogQueryParams { limit: None }.effective_limit(), 20);
    assert_eq!(LogQueryParams { limit: Some(5) }.effective_limit(), 5);
}

#[test]
fn test_is_blank() {
    assert!(is_blank(""));
    assert!(is_blank("  "));
    assert!(is_blank(" \t\r\n"));
    assert!(is_blank("\u{00A0}\u{2003}\u{3000}"));
    assert!(!is_blank("  x  "));
    assert!(!is_blank("commit message"));
}

#[test]
fn test_commit_request_gate() {
    let blank = CommitRequest {
        message: "  ".to_string(),
        stage_all: false,
    };
    match blank.validate() {
        Some(AppError::BadRequest(m)) => assert_eq!(m, "Commit message cannot be empty"),
        _ => panic!("wrong refusal"),
    }
    let ok = CommitRequest {
        message: "fix the codec".to_string(),
        stage_all: true,
    };
    assert!(ok.validate().is_none());
}

#[test]
fn test_reset_request_gate() {
    match (ResetRequest { confirm: false }).validate() {
        Some(AppError::BadRequest(m)) => {
            assert_eq!(m, "Reset requires confirmation. Set confirm: true to proceed.")
        }
        _ => panic!("wrong refusal"),
    }
    assert!((ResetRequest { confirm: true }).validate().is_none());
}

#[test]
fn test_checkout_request_gate() {
    let blank = CheckoutRequest {
        branch: "\t".to_string(),
    };
    match blank.validate() {
        Some(AppError::BadRequest(m)) => assert_eq!(m, "Branch name cannot be empty"),
        _ => panic!("wrong refusal"),
    }
    let ok = CheckoutRequest {
        branch: "main".to_string(),
    };
    assert!(ok.validate().is_none());
}

#[test]
fn test_repo_name_from_path() {
    assert_eq!(repo_name_from_path("/home/dev/my-project"), "my-project");
    assert_eq!(repo_name_from_path("plain"), "plain");
    assert_eq!(repo_name_from_path("/ends/in/slash/"), "unknown");
    assert_eq!(repo_name_from_path(""), "unknown");
}

#[test]
fn test_str_eq() {
    assert!(str_eq("", ""));
    assert!(str_eq("abc", "abc"));
    assert!(!str_eq("abc", "abd"));
    assert!(!str_eq("abc", "abcd"));
    assert!(str_eq("naïve", "naïve"));
    assert!(!str_eq("naïve", "naive"));
}

#[test]
fn test_uid_text_round_trip() {
    let values: Vec<u128> = vec![0, 1, u128::MAX, 0x123456789abcdef0fedcba9876543210];
    for value in values {
        let id = Uid { value };
        let text = id.to_text();
        assert_eq!(text.len(), 36);
        assert_eq!(Uid::parse_text(&text), Some(id));
    }
}

#[test]
fn test_uid_text_is_canonical() {
    let text = Uid { value: u128::MAX }.to_text();
    assert_eq!(String::from_utf8(text).unwrap(), "ffffffff-ffff-ffff-ffff-ffffffffffff");
    let text = Uid { value: 0 }.to_text();
    assert_eq!(String::from_utf8(text).unwrap(), "00000000-0000-0000-0000-000000000000");
}

#[test]
fn test_uid_parse_rejects_bad_text() {
    assert_eq!(Uid::parse_text(b""), None);
    assert_eq!(Uid::parse_text(b"ffffffff-ffff-ffff-ffff-fffffffffff"), None);
    assert_eq!(Uid::parse_text(b"ffffffffxffff-ffff-ffff-ffffffffffff"), None);
    assert_eq!(Uid::parse_text(b"gfffffff-ffff-ffff-ffff-ffffffffffff"), None);
    assert_eq!(
        Uid::parse_text(b"FFFFFFFF-FFFF-FFFF-FFFF-FFFFFFFFFFFF"),
        Some(Uid { value: u128::MAX })
    );
}
