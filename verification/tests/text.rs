use cpc_breadcrumbs::error::BreadcrumbError;
use cpc_breadcrumbs::layout::{
    active_dir, active_file, archived_file, backup_dir, backup_file, completed_dir, handoff_file,
    handoffs_dir, join, legacy_index_path, legacy_projects_dir, legacy_state_dir, migrated_name,
    state_dir, volumes_breadcrumbs_base, Layout,
};
use cpc_breadcrumbs::settings::{
    auto_reap_hours, choose_machine_name, keeps_state_apart, machine_name,
};
use cpc_breadcrumbs::table::Table;
use cpc_breadcrumbs::text::{
    self, chars_of, copy_option, copy_texts, is_extension_of, is_text_less, parse_number,
    split_records, text_between, to_decimal, to_file_stem, to_json_name,
};

#[test]
fn numbers_are_written_in_decimal() {
    assert_eq!(to_decimal(0), "0");
    assert_eq!(to_decimal(9), "9");
    assert_eq!(to_decimal(10), "10");
    assert_eq!(to_decimal(u128::MAX), u128::MAX.to_string());
}

#[test]
fn numbers_are_read_as_std_reads_them() {
    for s in [
        "", "+", "0", "00", "+7", "++7", "-1", "7 ", " 7", "1_000", "12a", "18446744073709551615",
        "18446744073709551616", "99999999999999999999999", "+018446744073709551615", "٣",
    ] {
        assert_eq!(parse_number(s), s.parse::<u64>().ok(), "{:?}", s);
    }
    for n in [0, 1, 24, 99, 100, u64::MAX] {
        assert_eq!(parse_number(&to_decimal(n as u128)), Some(n));
    }
}

#[test]
fn texts_are_ordered_as_std_orders_them() {
    let texts = ["", "a", "ab", "b", "B", "é", "2024-01-01", "2024-01-02", "日本", "\u{10ffff}"];
    for a in texts {
        for b in texts {
            assert_eq!(is_text_less(a, b), a < b, "{:?} {:?}", a, b);
        }
    }
}

#[test]
fn extensions_and_stems_are_those_of_paths() {
    for s in ["a.json", ".json", "a.json.tmp", "a", "a.", "x.y.json", "a.jsonl", "bc_1.json"] {
        let p = std::path::Path::new(s);
        let ext = p.extension().and_then(|e| e.to_str());
        assert_eq!(is_extension_of(s, "json"), ext == Some("json"), "{:?}", s);
        assert_eq!(is_extension_of(s, "jsonl"), ext == Some("jsonl"), "{:?}", s);
        assert_eq!(to_file_stem(s), p.file_stem().unwrap().to_str().unwrap(), "{:?}", s);
    }
    assert_eq!(to_json_name("bc_1"), "bc_1.json");
    assert_eq!(to_file_stem(&to_json_name("bc.1")), "bc.1");
}

#[test]
fn records_are_the_filled_lines() {
    for s in [
        "", "\n", "a", "a\nb\n", "  a \r\n\n\t\nb", "\u{a0}x\u{2003}\n y", "one\n\n\ntwo\n ",
    ] {
        let expected: Vec<String> = s
            .lines()
            .map(|l| l.trim().to_string())
            .filter(|l| !l.is_empty())
            .collect();
        assert_eq!(split_records(s), expected, "{:?}", s);
    }
}

#[test]
fn every_blank_is_trimmed() {
    for c in '\0'..=char::MAX {
        if c != '\n' {
            let line = format!("{}x{}", c, c);
            let expected: Vec<String> = line.lines().map(|l| l.trim().to_string()).collect();
            assert_eq!(split_records(&line), expected, "{:?}", c);
            assert_eq!(split_records(&c.to_string()).is_empty(), c.is_whitespace(), "{:?}", c);
        }
    }
}

#[test]
fn texts_are_put_together() {
    assert_eq!(text::concat("ab", "cd"), "abcd");
    assert_eq!(chars_of("né"), vec!['n', 'é']);
    assert_eq!(text_between(&vec!['a', 'b', 'c'], 1, 3), "bc");
    assert_eq!(copy_option(&Some("x".to_string())), Some("x".to_string()));
    assert_eq!(copy_option(&None), None);
    assert_eq!(copy_texts(&vec!["x".to_string()]), vec!["x".to_string()]);
}

#[test]
fn a_table_keeps_one_value_per_key() {
    let mut t: Table<Vec<String>> = Table::new();
    assert_eq!(t.len(), 0);
    t.insert("b".to_string(), vec!["1".to_string()]);
    t.insert("a".to_string(), vec![]);
    t.insert("b".to_string(), vec!["2".to_string()]);
    assert_eq!(t.len(), 2);
    assert_eq!(t.key_at(0), "b");
    assert_eq!(t.key_at(1), "a");
    assert_eq!(t.value_at(0)[0], "2");
    assert!(t.contains_key("a") && !t.contains_key("c"));
    assert_eq!(t.get("b").unwrap()[0], "2");
    assert!(t.get("c").is_none());
    assert_eq!(t.remove("b").unwrap()[0], "2");
    assert!(t.remove("b").is_none());
    assert_eq!(t.len(), 1);
    assert_eq!(t.key_at(0), "a");
}

fn bare_layout() -> Layout {
    Layout { volumes: None, state_dir: None, archive_dir: None, handoff_dir: None, separator: '\\' }
}

#[test]
fn default_paths_are_those_of_the_volume() {
    let l = bare_layout();
    assert_eq!(volumes_breadcrumbs_base(&l), r"C:\My Drive\Volumes\breadcrumbs");
    assert_eq!(active_dir(&l), r"C:\My Drive\Volumes\breadcrumbs\active");
    assert_eq!(completed_dir(&l), r"C:\My Drive\Volumes\breadcrumbs\completed");
    assert_eq!(active_file(&l, "bc_1"), r"C:\My Drive\Volumes\breadcrumbs\active\bc_1.json");
    assert_eq!(
        archived_file(&l, "2024-03-01", "bc_1"),
        r"C:\My Drive\Volumes\breadcrumbs\completed\2024-03-01\bc_1.json"
    );
    assert_eq!(state_dir(&l), r"C:\CPC\state\breadcrumbs");
    assert_eq!(legacy_state_dir(), r"C:\CPC\state\breadcrumbs");
    assert_eq!(legacy_index_path(&l), r"C:\CPC\state\breadcrumbs\active.index.json");
    assert_eq!(legacy_projects_dir(&l), r"C:\CPC\state\breadcrumbs\projects");
    assert_eq!(migrated_name("20240301_120000"), "breadcrumbs.migrated_20240301_120000");
    assert_eq!(handoffs_dir(&l), r"C:\My Drive\Volumes\handoffs");
    assert_eq!(
        handoff_file(&l, "2024-03-01"),
        r"C:\My Drive\Volumes\handoffs\pending_breadcrumbs_2024-03-01.md"
    );
    assert_eq!(backup_dir(), r"C:\CPC\backups\breadcrumbs");
    assert_eq!(
        backup_file(&l, "bc_1", "20240301_120000"),
        r"C:\CPC\backups\breadcrumbs\bc_1_20240301_120000.json"
    );
    assert!(!keeps_state_apart(&l));
}

#[test]
fn paths_follow_the_settings() {
    let l = Layout {
        volumes: Some("/vol/".to_string()),
        state_dir: Some("/state".to_string()),
        archive_dir: None,
        handoff_dir: None,
        separator: '/',
    };
    assert_eq!(volumes_breadcrumbs_base(&l), "/vol/breadcrumbs");
    assert_eq!(active_dir(&l), "/vol/breadcrumbs/active");
    assert_eq!(completed_dir(&l), "/vol/breadcrumbs/completed");
    assert_eq!(handoffs_dir(&l), "/vol/handoffs");
    assert_eq!(state_dir(&l), "/state");
    assert!(keeps_state_apart(&l));
    let set = Layout {
        volumes: Some("/vol".to_string()),
        state_dir: None,
        archive_dir: Some("/arch".to_string()),
        handoff_dir: Some("/hand".to_string()),
        separator: '/',
    };
    assert_eq!(archived_file(&set, "d", "i"), "/arch/d/i.json");
    assert_eq!(handoff_file(&set, "d"), "/hand/pending_breadcrumbs_d.md");
    assert_eq!(join("", "x", '/'), "x");
    assert_eq!(join("a", "x", '/'), "a/x");
    assert_eq!(join("a/", "x", '/'), "a/x");
    assert_eq!(join("a\\", "x", '/'), "a\\/x");
    assert_eq!(join("D:/Vol/", "breadcrumbs", '\\'), "D:/Vol/breadcrumbs");
    assert_eq!(join("D:\\Vol\\", "breadcrumbs", '\\'), "D:\\Vol\\breadcrumbs");
    assert_eq!(join("D:/Vol", "breadcrumbs", '\\'), "D:/Vol\\breadcrumbs");
}

#[test]
fn a_rooted_part_leads_to_the_root() {
    for (dir, part) in [
        ("/vol", "/etc/x"),
        ("/vol/", "/x"),
        ("", "/x"),
        ("/vol", "/"),
        ("/vol", "x"),
        ("/vol", "C:x"),
        ("C:/vol", "/x"),
        ("/vol", "\\x"),
    ] {
        let joined = std::path::Path::new(dir).join(part);
        assert_eq!(join(dir, part, '/'), joined.to_str().unwrap(), "{:?} {:?}", dir, part);
    }
    assert_eq!(archived_file(&bare_layout(), "d", "\\x"), "C:\\x.json");
    assert_eq!(join("vol", "\\x", '\\'), "\\x");
    assert_eq!(join("vol", "/x", '\\'), "/x");
    assert_eq!(join("d:/vol", "/x", '\\'), "d:/x");
    assert_eq!(join("C:\\vol", "D:\\x", '\\'), "D:\\x");
    assert_eq!(join("C:\\vol", "1:\\x", '\\'), "C:\\vol\\1:\\x");
}

#[test]
fn machine_name_takes_the_first_known() {
    let some = |s: &str| Some(s.to_string());
    assert_eq!(machine_name(some("PC-1"), some("Host"), some("Sys")), "pc-1");
    assert_eq!(machine_name(None, some("Host"), some("Sys")), "host");
    assert_eq!(machine_name(None, None, some("SYS.Local")), "sys.local");
    assert_eq!(machine_name(None, None, None), "unknown");
    assert_eq!(machine_name(some("ΑΣ"), None, None), "ας");
    assert_eq!(choose_machine_name(None, some("Host"), None), "Host");
}

#[test]
fn reaping_is_on_by_default() {
    assert_eq!(auto_reap_hours(None), Some(24));
    assert_eq!(auto_reap_hours(Some("")), None);
    assert_eq!(auto_reap_hours(Some("0")), None);
    assert_eq!(auto_reap_hours(Some("soon")), None);
    assert_eq!(auto_reap_hours(Some("-3")), None);
    assert_eq!(auto_reap_hours(Some("48")), Some(48));
}

#[test]
fn errors_say_what_is_wrong() {
    assert_eq!(BreadcrumbError::Io("denied".to_string()).message(), "I/O error: denied");
    assert_eq!(
        BreadcrumbError::Serde("eof".to_string()).message(),
        "serialization error: eof"
    );
    assert_eq!(
        BreadcrumbError::NotFound { id: "bc_1".to_string() }.message(),
        "breadcrumb not found: bc_1"
    );
    assert_eq!(BreadcrumbError::NoActive.message(), "no active breadcrumb");
    assert_eq!(
        BreadcrumbError::Ambiguous { count: 12 }.message(),
        "12 active breadcrumbs; a breadcrumb_id is needed"
    );
    assert_eq!(BreadcrumbError::Other("as is".to_string()).message(), "as is");
}
