use novels::distill::{
    build_prompt, normalize, padded_decimal, render_yaml, split_chunks, yaml_escape,
    ChapterDistill, DistillStats, Fragment, Verdict, CHUNK_CHARS, DISTILL_CLOSING,
    DISTILL_INSTRUCTIONS,
};

fn frag(category: &str, excerpt: &str, tags: &[&str]) -> Fragment {
    Fragment {
        category: category.into(),
        excerpt: excerpt.into(),
        tags: tags.iter().map(|t| (*t).to_string()).collect(),
    }
}

#[test]
fn normalize_removes_all_whitespace() {
    assert_eq!(normalize(" 黛玉\n 垂泪\t。 "), "黛玉垂泪。");
    assert_eq!(normalize("\u{3000}全角空格"), "全角空格");
}

#[test]
fn yaml_escape_backslashes_and_quotes() {
    assert_eq!(yaml_escape(r#"a\b"c"#), r#"a\\b\"c"#);
    assert_eq!(yaml_escape("平常"), "平常");
}

#[test]
fn prompt_wraps_chunk() {
    assert_eq!(build_prompt("原文"), format!("{}原文{}", DISTILL_INSTRUCTIONS, DISTILL_CLOSING));
}

#[test]
fn chunks_cover_text_and_end_before_newlines() {
    let line = "字".repeat(1000);
    let text = format!("{line}\n{line}\n{line}\n{line}");
    let chunks = split_chunks(&text);
    assert_eq!(chunks.concat(), text);
    assert_eq!(chunks.len(), 2);
    assert_eq!(chunks[0].chars().count(), 3002);
    assert!(chunks[1].starts_with('\n'));
    assert!(split_chunks("").is_empty());
    let short = split_chunks("短\n文");
    assert_eq!(short, vec!["短\n文"]);
    assert!(CHUNK_CHARS == 2500);
}

#[test]
fn padded_keys() {
    assert_eq!(padded_decimal(7, 3), "007");
    assert_eq!(padded_decimal(12, 2), "12");
    assert_eq!(padded_decimal(1234, 3), "1234");
}

#[test]
fn fragments_are_judged_in_order() {
    let mut d = ChapterDistill::new("hlm", 1, "黛玉 垂泪，宝玉 无言。\n夜凉如水");
    let mut stats = DistillStats::new();
    assert_eq!(d.consider(frag("smell", "黛玉垂泪，宝玉无言", &[]), &mut stats), Verdict::BadCategory);
    assert_eq!(d.consider(frag("visual", "黛玉", &[]), &mut stats), Verdict::BadLength);
    assert_eq!(d.consider(frag("visual", "黛玉含笑，宝玉无言", &[]), &mut stats), Verdict::NotVerbatim);
    assert_eq!(d.consider(frag("emotion", "黛玉 垂泪，宝玉无言", &["黛玉"]), &mut stats), Verdict::Kept);
    assert_eq!(d.consider(frag("visual", "黛玉垂泪，宝玉无言", &[]), &mut stats), Verdict::Duplicate);
    assert_eq!(d.consider(frag("atmosphere", "垂泪，宝玉无言。", &[]), &mut stats), Verdict::Kept);
    assert_eq!(stats.kept, 2);
    assert_eq!(stats.dropped_bad_category, 1);
    assert_eq!(stats.dropped_length, 1);
    assert_eq!(stats.dropped_not_verbatim, 1);
    assert_eq!(stats.dropped_dup, 1);
    assert_eq!(d.kept.len(), 2);
    assert_eq!(d.kept[0].0, "hlm-c001-01");
    assert_eq!(d.kept[1].0, "hlm-c001-02");
}

#[test]
fn yaml_groups_by_category_in_order() {
    let kept = vec![
        ("hlm-c001-01".to_string(), frag("gesture", "她\"笑\"了", &["a", "b", "c", "d", "e"])),
        ("hlm-c001-02".to_string(), frag("visual", "月色", &["夜"])),
    ];
    let y = render_yaml("hlm", &kept);
    assert_eq!(
        y,
        "visual:\n  hlm-c001-02:\n    text: \"月色\"\n    tags: [\"hlm\", \"夜\"]\ngesture:\n  hlm-c001-01:\n    text: \"她\\\"笑\\\"了\"\n    tags: [\"hlm\", \"a\", \"b\", \"c\", \"d\"]\n"
    );
    assert_eq!(render_yaml("hlm", &vec![]), "");
}

#[test]
fn kept_fragments_stay_verbatim_and_distinct() {
    let text = "风过回廊，竹影摇动。\n她倚着栏杆，一言不发。";
    let mut d = ChapterDistill::new("zhz", 12, text);
    let mut stats = DistillStats::new();
    for (cat, ex) in [
        ("atmosphere", "风过回廊，竹影摇动"),
        ("gesture", "她倚着栏杆"),
        ("gesture", "她 倚着 栏杆"),
        ("emotion", "她心如刀割，一言不发"),
    ] {
        d.consider(frag(cat, ex, &[]), &mut stats);
    }
    assert_eq!(d.kept.len(), 2);
    let norm = normalize(text);
    for (_, f) in &d.kept {
        assert!(norm.contains(&normalize(&f.excerpt)));
    }
    assert_eq!(d.kept[1].0, "zhz-c012-02");
    assert_eq!(d.seen, vec!["风过回廊，竹影摇动", "她倚着栏杆"]);
}
