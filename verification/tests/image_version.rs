use composer::image_version::{extract_version, image_tag, short_image_id};

#[test]
fn extract_version_common_tags() {
    assert_eq!(extract_version("nginx:v1.2.3"), Some("v1.2.3".to_string()));
    assert_eq!(extract_version("ghcr.io/org/svc:v0.10.12"), Some("v0.10.12".to_string()));
    assert_eq!(
        extract_version("registry.example.com/team/app:v2.0.0-beta.1"),
        Some("v2.0.0-beta.1".to_string())
    );
    assert_eq!(extract_version("service:1.2.3"), Some("1.2.3".to_string()));
    assert_eq!(extract_version("alpine:3.12"), Some("3.12".to_string()));
    assert_eq!(extract_version("app:2024.08.22"), Some("2024.08.22".to_string()));
    assert_eq!(extract_version("localhost:5000/app:1.2"), Some("1.2".to_string()));
}

#[test]
fn extract_version_embedded_in_tag() {
    assert_eq!(extract_version("app:hello-world-v1.2.3"), Some("v1.2.3".to_string()));
    assert_eq!(extract_version("app:bob-jones-2.0"), Some("2.0".to_string()));
    assert_eq!(extract_version("app:release_1.4.0"), Some("1.4.0".to_string()));
    assert_eq!(extract_version("app:hello-world2-v1.2.3"), Some("v1.2.3".to_string()));
}

#[test]
fn extract_version_suffix_handling() {
    // image variants are dropped, prereleases are kept
    assert_eq!(extract_version("nginx:1.25.3-alpine"), Some("1.25.3".to_string()));
    assert_eq!(extract_version("python:3.11-slim"), Some("3.11".to_string()));
    assert_eq!(extract_version("app:v1.2.3-rc.1"), Some("v1.2.3-rc.1".to_string()));
    assert_eq!(extract_version("app:v1.2.3-beta"), Some("v1.2.3-beta".to_string()));
    assert_eq!(extract_version("app:2.0-20240101"), Some("2.0-20240101".to_string()));
    assert_eq!(extract_version("app:v1.2.3-bob-jones"), Some("v1.2.3".to_string()));
}

#[test]
fn extract_version_missing_returns_none() {
    assert_eq!(extract_version("nginx:latest"), None);
    assert_eq!(extract_version("postgres"), None);
    assert_eq!(extract_version("postgres:16"), None); // single number: too ambiguous
    assert_eq!(extract_version("app:main"), None);
    assert_eq!(extract_version("app:sha-abc1234"), None);
    assert_eq!(extract_version("app:build-42"), None);
    assert_eq!(extract_version("app:2.0abc"), None);
    assert_eq!(extract_version("localhost:5000/app"), None); // port, no tag
    assert_eq!(extract_version("my2.0app:latest"), None); // only the tag is scanned
    assert_eq!(extract_version(""), None);
}

#[test]
fn extract_version_ignores_v_inside_words() {
    // The 'v' in 'nova' should not be treated as a version prefix.
    assert_eq!(extract_version("nova:latest"), None);
    assert_eq!(extract_version("service:stable"), None);
    assert_eq!(extract_version("app:hello-worldv1.2.3"), None); // no boundary before v
}

#[test]
fn extract_version_with_digest_suffix() {
    // Even when a digest follows, we still surface the tag.
    assert_eq!(extract_version("nginx:v1.2.3@sha256:abc123"), Some("v1.2.3".to_string()));
    assert_eq!(extract_version("nginx@sha256:abc123"), None);
}

#[test]
fn extract_version_takes_the_leftmost_at_its_longest() {
    assert_eq!(extract_version("app:1.2-3.4.5"), Some("1.2-3.4.5".to_string()));
    assert_eq!(extract_version("app:1.2.x-3.4"), Some("1.2".to_string()));
    assert_eq!(extract_version("app:1.2_3.4.5"), Some("1.2".to_string()));
    assert_eq!(extract_version("app:1.2-RC1_x"), Some("1.2-RC1".to_string()));
    assert_eq!(extract_version("app:1.2.3.rel"), Some("1.2.3".to_string()));
    assert_eq!(extract_version("app:x-1.2a-3.4"), Some("3.4".to_string()));
}

#[test]
fn extract_version_beyond_ascii() {
    // digits of other scripts are digits too
    assert_eq!(extract_version("app:v1.\u{ff12}"), Some("v1.\u{ff12}".to_string()));
    assert_eq!(extract_version("app:\u{663}.\u{664}-rc"), Some("\u{663}.\u{664}-rc".to_string()));
    // letters are no digits and no separators
    assert_eq!(extract_version("app:é-1.2"), Some("1.2".to_string()));
    assert_eq!(extract_version("app:é1.2"), None);
    assert_eq!(extract_version("app:1.é"), None);
}

#[test]
fn version_depends_on_the_tag_alone() {
    for tag in ["v1.2.3-rc.1", "main", "x_2.0+y", "16"] {
        let plain = extract_version(&format!("app:{tag}"));
        assert_eq!(extract_version(&format!("localhost:5000/org/other:{tag}@sha256:1.2")), plain);
    }
    assert_eq!(extract_version("v1.2/app@sha256:3.4"), None);
}

#[test]
fn image_tag_looks_at_the_last_component_before_the_digest() {
    assert_eq!(image_tag("localhost:5000/app"), None);
    assert_eq!(image_tag("localhost:5000/app:main"), Some("main"));
    assert_eq!(image_tag("app:main@sha256:1:2"), Some("main"));
    assert_eq!(image_tag("app:"), None);
    assert_eq!(image_tag("app:a:b"), Some("a:b"));
}

#[test]
fn short_image_id_keeps_twelve_digits() {
    assert_eq!(short_image_id("sha256:102dbfdde2da60d2b8ec"), "102dbfdde2da");
    assert_eq!(short_image_id("102dbfdde2da60d2b8ec"), "102dbfdde2da");
    assert_eq!(short_image_id("sha256:102d"), "102d");
    assert_eq!(short_image_id(""), "");
}

/// Two or more numbers with dots between them.
fn is_dotted_number(s: &str) -> bool {
    let parts: Vec<&str> = s.split('.').collect();
    parts.len() >= 2
        && parts.iter().all(|p| !p.is_empty() && p.bytes().all(|b| b.is_ascii_digit()))
}

fn is_release(s: &str) -> bool {
    is_dotted_number(s) || s.strip_prefix('v').is_some_and(is_dotted_number)
}

fn is_prerelease(s: &str) -> bool {
    let Some(rest) = s.strip_prefix('-') else { return false };
    let low = rest.to_ascii_lowercase();
    let words = ["rc", "alpha", "beta", "pre", "dev", "snapshot", "nightly", "canary", "build"];
    rest.bytes().all(|b| b.is_ascii_alphanumeric() || b == b'.' || b == b'-')
        && (rest.starts_with(|c: char| c.is_ascii_digit())
            || words.iter().any(|w| low.starts_with(w)))
}

fn is_version(s: &str) -> bool {
    is_release(s) || (0..=s.len()).any(|n| is_release(&s[..n]) && is_prerelease(&s[n..]))
}

/// The leftmost version in an ASCII tag, at its longest, by trying all places.
fn first_version(tag: &str) -> Option<&str> {
    let bytes = tag.as_bytes();
    for from in 0..=tag.len() {
        if from > 0 && !b"-_+".contains(&bytes[from - 1]) {
            continue;
        }
        for to in (from..=tag.len()).rev() {
            let ends = to == tag.len() || b"-_+.".contains(&bytes[to]);
            if ends && is_version(&tag[from..to]) {
                return Some(&tag[from..to]);
            }
        }
    }
    None
}

/// Compares all texts of up to `n` of the pieces with the search above.
fn compare_all(pieces: &[&str], n: usize) {
    let mut tags = vec![String::new()];
    let mut from = 0;
    for _ in 0..n {
        let to = tags.len();
        for i in from..to {
            for piece in pieces {
                tags.push(format!("{}{piece}", tags[i]));
            }
        }
        from = to;
    }
    for tag in tags.iter().skip(1) {
        let found = extract_version(&format!("app:{tag}"));
        assert_eq!(found.as_deref(), first_version(tag), "{tag}");
    }
}

#[test]
fn versions_in_short_tags() {
    compare_all(&["1", ".", "-", "v", "x"], 5);
}

#[test]
fn versions_with_suffixes() {
    compare_all(&["1.2", "-rc", "-", ".", "_", "3"], 4);
    compare_all(&["v1.2", "-Beta", "+", ".4", "-x"], 4);
}
