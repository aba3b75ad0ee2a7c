use libra::approval::{
    merge_approval_tighten_only, runtime_from_layer, ApprovalLayer, DEFAULT_APPROVAL_TTL,
};
use libra::approval_cache::{
    approval_cache_scope_key, unbound_approval_cache_scope, ApprovalRuntimeCache,
    ApprovalRuntimeCacheError,
};

fn layer_with_domains(domains: Option<Vec<&str>>) -> ApprovalLayer {
    ApprovalLayer {
        allowed_network_domains: domains.map(|d| d.into_iter().map(str::to_string).collect()),
        ..ApprovalLayer::default()
    }
}

#[test]
fn explicit_empty_overlay_allowlist_intersects_to_empty() {
    let repository = layer_with_domains(Some(vec!["github.com"]));
    let overlay = layer_with_domains(Some(Vec::new()));
    let merged = runtime_from_layer(merge_approval_tighten_only(repository, overlay));
    assert!(
        merged.cache_policy.allowed_network_domains.is_empty(),
        "explicit empty overlay must revoke repository allowlist entries"
    );
}

#[test]
fn overlay_cannot_add_domains_when_repository_denies_unknown_network() {
    let repository = ApprovalLayer {
        allowed_network_domains: None,
        no_cache_unknown_network: true,
        ..ApprovalLayer::default()
    };
    let overlay = layer_with_domains(Some(vec!["github.com"]));
    let merged = runtime_from_layer(merge_approval_tighten_only(repository, overlay));
    assert!(
        merged.cache_policy.allowed_network_domains.is_empty(),
        "overlay must not re-enable cached network hosts when repository deny-all is set"
    );
    assert!(merged.cache_policy.no_cache_unknown_network);
}

#[test]
fn omitted_overlay_allowlist_keeps_repository_domains() {
    let repository = layer_with_domains(Some(vec!["github.com"]));
    let overlay = layer_with_domains(None);
    let merged = runtime_from_layer(merge_approval_tighten_only(repository, overlay));
    assert_eq!(
        merged.cache_policy.allowed_network_domains,
        vec!["github.com".to_string()]
    );
}

#[test]
fn overlay_cannot_lengthen_default_ttl_when_repository_omits_it() {
    let overlay = ApprovalLayer {
        ttl: Some(3600),
        ..ApprovalLayer::default()
    };
    let merged = runtime_from_layer(merge_approval_tighten_only(ApprovalLayer::default(), overlay));
    assert_eq!(merged.ttl, Some(DEFAULT_APPROVAL_TTL));
}

#[test]
fn overlay_can_shorten_default_ttl_when_repository_omits_it() {
    let overlay = ApprovalLayer {
        ttl: Some(60),
        ..ApprovalLayer::default()
    };
    let merged = runtime_from_layer(merge_approval_tighten_only(ApprovalLayer::default(), overlay));
    assert_eq!(merged.ttl, Some(60));
}

#[test]
fn overlay_cannot_replace_default_protected_branches() {
    let overlay = ApprovalLayer {
        protected_branches: Some(vec!["develop".to_string()]),
        ..ApprovalLayer::default()
    };
    let merged = runtime_from_layer(merge_approval_tighten_only(ApprovalLayer::default(), overlay));
    let branches = &merged.cache_policy.protected_branches;
    assert!(branches.iter().any(|b| b == "main"));
    assert!(branches.iter().any(|b| b == "master"));
    assert!(branches.iter().any(|b| b == "develop"));
}

#[test]
fn overlay_can_switch_on_no_cache_but_not_off() {
    let repository = ApprovalLayer {
        no_cache_unknown_network: true,
        ..ApprovalLayer::default()
    };
    let merged = merge_approval_tighten_only(repository, ApprovalLayer::default());
    assert!(merged.no_cache_unknown_network);
    let overlay = ApprovalLayer {
        no_cache_unknown_network: true,
        ..ApprovalLayer::default()
    };
    let merged = merge_approval_tighten_only(ApprovalLayer::default(), overlay);
    assert!(merged.no_cache_unknown_network);
}

#[test]
fn scope_key_prefixes_the_repository_id() {
    assert_eq!(approval_cache_scope_key("abc-123").unwrap(), "repo:abc-123");
}

#[test]
fn scope_key_refuses_empty_or_padded_identity() {
    for bad in ["", " abc", "abc\n", "   "] {
        match approval_cache_scope_key(bad) {
            Err(ApprovalRuntimeCacheError::Database(message)) => assert_eq!(
                message,
                "cannot key the approval cache: repository identity is empty or padded"
            ),
            other => panic!("expected a database error for {bad:?}, got {other:?}"),
        }
    }
}

#[test]
fn unbound_scope_names_the_directory() {
    assert_eq!(unbound_approval_cache_scope("/tmp/work"), "unbound:/tmp/work");
}

#[test]
fn runtime_cache_for_repository_keys_the_scope() {
    let cache = ApprovalRuntimeCache::for_repository("repo-7").unwrap();
    assert_eq!(cache.repo_id, "repo-7");
    assert_eq!(cache.scope_key, "repo:repo-7");
    assert!(ApprovalRuntimeCache::for_repository("").is_err());
}

#[test]
fn cache_errors_read_as_their_messages() {
    assert_eq!(
        ApprovalRuntimeCacheError::NotARepository("/w".to_string()).message(),
        "working directory `/w` is not a Libra repository; approval cache cannot use a global scope"
    );
    assert_eq!(
        ApprovalRuntimeCacheError::DamagedWorktree {
            path: "/w".to_string(),
            detail: "broken".to_string(),
        }
        .message(),
        "cannot resolve approval cache for `/w`: broken"
    );
}
