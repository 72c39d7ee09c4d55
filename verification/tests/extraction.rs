use kuberes::extract::extract;
use kuberes::totals::ResourceTotals;
use kuberes::totals::summarize;

#[test]
fn ordering_a_requests_and_limits() {
    let doc = "requests:\n  cpu: \"250m\"\n  memory: 64M\nlimits:\n  cpu: \"500m\"\n  memory: 128M";
    let totals = summarize(doc);
    assert_eq!(
        totals,
        ResourceTotals {
            memory_requested: 64,
            memory_limit: 128,
            cpu_requested_milli: 250,
            cpu_limit_milli: 500,
        }
    );
}

#[test]
fn ordering_b_requests_only() {
    let doc = "requests:\n  memory: \"64M\"\n  cpu: \"250m\"";
    let totals = summarize(doc);
    assert_eq!(
        totals,
        ResourceTotals {
            memory_requested: 64,
            memory_limit: 0,
            cpu_requested_milli: 250,
            cpu_limit_milli: 0,
        }
    );
}

#[test]
fn ordering_b_limits_only() {
    let doc = "limits:\n    memory: \"512M\"\n    cpu: \"500m\"\n";
    let totals = summarize(doc);
    assert_eq!(
        totals,
        ResourceTotals {
            memory_requested: 0,
            memory_limit: 512,
            cpu_requested_milli: 0,
            cpu_limit_milli: 500,
        }
    );
}

#[test]
fn both_orderings_in_one_document() {
    let doc = "requests:\n  cpu: \"100m\"\n  memory: 128M\nlimits:\n  memory: \"512M\"\n  cpu: \"500m\"\n";
    let totals = summarize(doc);
    assert_eq!(
        totals,
        ResourceTotals {
            memory_requested: 128,
            memory_limit: 512,
            cpu_requested_milli: 100,
            cpu_limit_milli: 500,
        }
    );
}

#[test]
fn two_containers_in_one_document() {
    let doc = "requests:\n  cpu: \"100m\"\n  memory: 10M\nrequests:\n  cpu: \"200m\"\n  memory: 20M\n";
    let totals = summarize(doc);
    assert_eq!(
        totals,
        ResourceTotals {
            memory_requested: 30,
            memory_limit: 0,
            cpu_requested_milli: 300,
            cpu_limit_milli: 0,
        }
    );
}

#[test]
fn block_missing_memory_contributes_nothing() {
    let doc = "requests:\n  cpu: \"250m\"\n";
    assert_eq!(summarize(doc), ResourceTotals::zero());
}

#[test]
fn block_with_reversed_section_order_is_skipped() {
    let doc = "cpu: \"250m\"\nmemory: 64M\nrequests:\n";
    assert_eq!(summarize(doc), ResourceTotals::zero());
}

#[test]
fn unrelated_text_contributes_nothing() {
    let doc = "apiVersion: v1\nkind: Pod\nmetadata:\n  name: box\n";
    assert_eq!(summarize(doc), ResourceTotals::zero());
}

#[test]
fn empty_document_contributes_nothing() {
    assert_eq!(summarize(""), ResourceTotals::zero());
}

#[test]
fn whitespace_between_tokens_may_be_absent() {
    let doc = "requests:cpu:\"1\"memory:2";
    let totals = summarize(doc);
    assert_eq!(
        totals,
        ResourceTotals {
            memory_requested: 2,
            memory_limit: 0,
            cpu_requested_milli: 1,
            cpu_limit_milli: 0,
        }
    );
}

#[test]
fn extract_reports_raw_strings_in_order() {
    let doc = "requests:\n  cpu: \"250m\"\n  memory: 64M\nrequests:\n  memory: \"32M\"\n  cpu: \"125m\"\n";
    let ex = extract(doc);
    assert_eq!(ex.cpu_requests, vec!["250m".to_string(), "125m".to_string()]);
    assert_eq!(ex.mem_requests, vec!["64M".to_string(), "32M".to_string()]);
    assert!(ex.cpu_limits.is_empty());
    assert!(ex.mem_limits.is_empty());
}

#[test]
fn quoted_memory_in_ordering_a_keeps_its_quotes() {
    // In the CPU-then-memory order the memory value is the rest of the line,
    // so a quoted value keeps its quotes and has no numeric prefix.
    let doc = "requests:\n  cpu: \"250m\"\n  memory: \"128M\"\n";
    let ex = extract(doc);
    assert_eq!(ex.mem_requests, vec!["\"128M\"".to_string()]);
    let totals = summarize(doc);
    assert_eq!(totals.memory_requested, 0);
    assert_eq!(totals.cpu_requested_milli, 250);
}

#[test]
fn quoted_value_extends_to_the_latest_workable_quote() {
    // With the whole block on one line, the cpu value's closing quote is the
    // latest one after which "memory:" still follows.
    let doc = "requests: cpu: \"250m\" memory: \"128M\"";
    let ex = extract(doc);
    assert_eq!(ex.cpu_requests, vec!["250m".to_string()]);
    assert_eq!(ex.mem_requests, vec!["\"128M\"".to_string()]);
}

#[test]
fn unicode_whitespace_separates_tokens() {
    let doc = "requests:\u{a0}cpu:\u{2003}\"250m\"\u{a0}memory: 64M";
    let totals = summarize(doc);
    assert_eq!(totals.cpu_requested_milli, 250);
    assert_eq!(totals.memory_requested, 64);
}

#[test]
fn carriage_return_line_endings_are_tolerated() {
    let doc = "requests:\r\n  cpu: \"250m\"\r\n  memory: 64M\r\nlimits:\r\n  cpu: \"500m\"\r\n  memory: 128M\r\n";
    let totals = summarize(doc);
    assert_eq!(
        totals,
        ResourceTotals {
            memory_requested: 64,
            memory_limit: 128,
            cpu_requested_milli: 250,
            cpu_limit_milli: 500,
        }
    );
}

#[test]
fn memory_value_runs_to_the_end_of_its_line() {
    let doc = "requests:\n  cpu: \"1\"\n  memory: 64M # some note\nend";
    let ex = extract(doc);
    assert_eq!(ex.mem_requests, vec!["64M # some note".to_string()]);
    assert_eq!(summarize(doc).memory_requested, 64);
}
