use epmeta::document::{extract_abstract, extract_episode, extract_fallback_abstract};
use epmeta::extract::{
    clean_series_name, extract_description, extract_tags, extract_title, extract_year_month,
    split_filename,
};

#[test]
fn ep_num_from_two_segments() {
    let (name, num) = split_filename("Show A_01_x.md");
    assert_eq!(name, "Show A");
    assert_eq!(num, "01");
}

#[test]
fn ep_num_strips_md_suffix() {
    let (name, num) = split_filename("Show B_07.md");
    assert_eq!(name, "Show B");
    assert_eq!(num, "07");
}

#[test]
fn ep_num_strips_repeated_md_suffix() {
    let (_, num) = split_filename("a_b.md.md");
    assert_eq!(num, "b");
}

#[test]
fn ep_num_empty_for_single_segment() {
    let (name, num) = split_filename("plain.md");
    assert_eq!(name, "plain.md");
    assert_eq!(num, "");
}

#[test]
fn clean_strips_trailing_number() {
    assert_eq!(clean_series_name("Foo Bar 12"), "Foo Bar");
}

#[test]
fn clean_strips_trailing_dotted_number() {
    assert_eq!(clean_series_name("Foo Bar 12.5"), "Foo Bar");
}

#[test]
fn clean_keeps_trailing_word() {
    assert_eq!(clean_series_name("Foo Bar Two"), "Foo Bar Two");
}

#[test]
fn clean_without_space_unchanged() {
    assert_eq!(clean_series_name("Solo"), "Solo");
}

#[test]
fn clean_trailing_space_strips_empty_token() {
    assert_eq!(clean_series_name("Foo "), "Foo");
}

#[test]
fn title_found() {
    let r = extract_title("---\ntitle: \"My Show 3\"\n---\n");
    assert_eq!(r.as_deref(), Some("My Show 3"));
}

#[test]
fn title_absent() {
    assert_eq!(extract_title("no front matter here"), None);
}

#[test]
fn title_needs_closing_quote() {
    assert_eq!(extract_title("title: \"unterminated"), None);
}

#[test]
fn tags_capture() {
    let r = extract_tags("tags: [tech, news]");
    assert_eq!(r.as_deref(), Some("tech, news"));
}

#[test]
fn year_month_from_tags() {
    let (y, m) = extract_year_month("tags: [tech, 202403, news]");
    assert_eq!(y, "2024");
    assert_eq!(m, "03");
}

#[test]
fn year_month_empty_without_six_digit_run() {
    let (y, m) = extract_year_month("tags: [tech, 2024, news]");
    assert_eq!(y, "");
    assert_eq!(m, "");
}

#[test]
fn year_month_empty_without_tags() {
    let (y, m) = extract_year_month("title: \"x\"");
    assert_eq!(y, "");
    assert_eq!(m, "");
}

#[test]
fn year_month_takes_first_run() {
    let (y, m) = extract_year_month("tags: [202111, 202212]");
    assert_eq!(y, "2021");
    assert_eq!(m, "11");
}

#[test]
fn description_double_quoted() {
    let r = extract_description("description: \"A short summary\"");
    assert_eq!(r.as_deref(), Some("A short summary"));
}

#[test]
fn description_single_quoted() {
    let r = extract_description("description: 'quiet words'");
    assert_eq!(r.as_deref(), Some("quiet words"));
}

#[test]
fn description_unquoted_stops_at_line_end() {
    let r = extract_description("description: plain text\nnext line");
    assert_eq!(r.as_deref(), Some("plain text"));
}

#[test]
fn abstract_uses_description() {
    let content = "---\ndescription: \"A short summary\"\n---\nbody text";
    assert_eq!(extract_abstract(content), "A short summary");
}

#[test]
fn abstract_falls_back_to_body() {
    let content = "---\ntitle: \"T\"\n---\nFirst line.\nSecond line.\n";
    assert_eq!(extract_abstract(content), "First line. Second line.");
}

#[test]
fn abstract_empty_description_falls_back() {
    let content = "---\ndescription: \"\"\n---\nreal body";
    assert_eq!(extract_abstract(content), "real body");
}

#[test]
fn fallback_empty_without_second_delimiter() {
    assert_eq!(extract_fallback_abstract("---\nonly one delimiter"), "");
}

#[test]
fn fallback_truncates_long_body() {
    let long = "x".repeat(250);
    let content = format!("---\nt\n---\n{}", long);
    let got = extract_fallback_abstract(&content);
    let mut want = "x".repeat(200);
    want.push_str("...");
    assert_eq!(got, want);
}

#[test]
fn fallback_keeps_body_of_exactly_two_hundred() {
    let body = "y".repeat(200);
    let content = format!("---\nt\n---\n{}", body);
    assert_eq!(extract_fallback_abstract(&content), body);
}

#[test]
fn title_allows_whitespace_before_quote() {
    let r = extract_title("title:\t  \"Spaced\"");
    assert_eq!(r.as_deref(), Some("Spaced"));
}

#[test]
fn tags_allow_newline_before_bracket() {
    let (y, m) = extract_year_month("tags:\n[202512]");
    assert_eq!(y, "2025");
    assert_eq!(m, "12");
}

#[test]
fn clean_strips_only_last_token() {
    assert_eq!(clean_series_name("A 1 2"), "A 1");
}

#[test]
fn episode_prefers_title_over_filename() {
    let ep = extract_episode("File Name_04_x.md", "title: \"Real Title 9\"");
    assert_eq!(ep.series_name_raw, "Real Title 9");
    assert_eq!(ep.series_name_clean, "Real Title");
    assert_eq!(ep.ep_num, "04");
}

#[test]
fn episode_falls_back_to_filename_segment() {
    let ep = extract_episode("Fallback Name_02.md", "no fields at all");
    assert_eq!(ep.series_name_raw, "Fallback Name");
    assert_eq!(ep.series_name_clean, "Fallback Name");
    assert_eq!(ep.ep_num, "02");
}

#[test]
fn episode_from_empty_content() {
    let ep = extract_episode("a_b.md", "");
    assert_eq!(ep.series_name_raw, "a");
    assert_eq!(ep.ep_num, "b");
    assert_eq!(ep.ep_year, "");
    assert_eq!(ep.ep_month, "");
    assert_eq!(ep.abstract_text, "");
}
