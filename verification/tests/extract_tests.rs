use wocka::extract::{extract_from_texts, extract_joke, page_url, ExtractionOutcome, SoftReason};
use wocka::html::Selectors;

fn cv(s: &str) -> Vec<char> {
    s.chars().collect()
}

#[test]
fn success_with_all_fields() {
    let r = extract_from_texts(
        7,
        Some(cv("A Joke")),
        &vec![cv("  Category  "), cv(" Animal ")],
        &vec![cv(" line one "), cv("   "), cv("line two")],
    );
    match r {
        ExtractionOutcome::Success(j) => {
            assert_eq!(j.title, "A Joke");
            assert_eq!(j.body, "line one\nline two");
            assert_eq!(j.category, "Animal");
            assert_eq!(j.id, 7);
            assert!(!j.body.is_empty());
        }
        other => panic!("expected success, got {:?}", other),
    }
}

#[test]
fn missing_title_is_soft() {
    let r = extract_from_texts(1, None, &vec![cv("Category"), cv("Animal")], &vec![cv("body")]);
    assert_eq!(r, ExtractionOutcome::SoftFailure(SoftReason::MissingTitle));
}

#[test]
fn missing_category_label_is_soft() {
    let r = extract_from_texts(
        1,
        Some(cv("T")),
        &vec![cv("Kategorie"), cv("Animal")],
        &vec![cv("body")],
    );
    assert_eq!(r, ExtractionOutcome::SoftFailure(SoftReason::MissingCategoryLabel));
}

#[test]
fn category_label_without_value_is_soft() {
    // The token after the label is all whitespace, so it is dropped and
    // the label ends up last.
    let r = extract_from_texts(
        1,
        Some(cv("T")),
        &vec![cv("Rating"), cv("Category"), cv("   ")],
        &vec![cv("body")],
    );
    assert_eq!(r, ExtractionOutcome::SoftFailure(SoftReason::MissingCategoryValue));
}

#[test]
fn case_sensitive_label_lookup() {
    let r = extract_from_texts(1, Some(cv("T")), &vec![cv("category"), cv("Animal")], &vec![
        cv("body"),
    ]);
    assert_eq!(r, ExtractionOutcome::SoftFailure(SoftReason::MissingCategoryLabel));
}

#[test]
fn whitespace_only_content_is_empty_body() {
    let r = extract_from_texts(
        1,
        Some(cv("T")),
        &vec![cv("Category"), cv("Animal")],
        &vec![cv("   "), cv("\t\n")],
    );
    assert_eq!(r, ExtractionOutcome::SoftFailure(SoftReason::EmptyBody));
}

#[test]
fn no_content_is_empty_body() {
    let r = extract_from_texts(1, Some(cv("T")), &vec![cv("Category"), cv("Animal")], &vec![]);
    assert_eq!(r, ExtractionOutcome::SoftFailure(SoftReason::EmptyBody));
}

#[test]
fn first_category_label_wins() {
    let r = extract_from_texts(
        3,
        Some(cv("T")),
        &vec![cv("Category"), cv("First"), cv("Category"), cv("Second")],
        &vec![cv("body")],
    );
    match r {
        ExtractionOutcome::Success(j) => assert_eq!(j.category, "First"),
        other => panic!("expected success, got {:?}", other),
    }
}

#[test]
fn page_url_substitutes_the_id() {
    assert_eq!(page_url(1), "http://www.wocka.com/1.html");
    assert_eq!(page_url(90210), "http://www.wocka.com/90210.html");
}

#[test]
fn extract_joke_from_html_document() {
    let sels = Selectors::new();
    let html = "<html><body><div id=\"content\"><h2>The Title</h2>\
                Some body text.\
                <table><tr><td class=\"contents\">Category</td>\
                <td class=\"contents\"> Animal </td></tr></table>\
                </div></body></html>";
    let r = extract_joke(5, html, &sels);
    match r {
        ExtractionOutcome::Success(j) => {
            assert_eq!(j.title, "The Title");
            assert_eq!(j.body, "Some body text.");
            assert_eq!(j.category, "Animal");
            assert_eq!(j.id, 5);
        }
        other => panic!("expected success, got {:?}", other),
    }
}

#[test]
fn extract_joke_without_heading_is_soft() {
    let sels = Selectors::new();
    let html = "<html><body><div id=\"content\">text only</div></body></html>";
    let r = extract_joke(1, html, &sels);
    assert_eq!(r, ExtractionOutcome::SoftFailure(SoftReason::MissingTitle));
}

#[test]
fn extract_joke_body_excludes_nested_elements() {
    let sels = Selectors::new();
    let html = "<html><body><div id=\"content\"><h2>T</h2>\
                first part<p>nested paragraph</p>second part\
                <table><tr><td class=\"contents\">Category</td>\
                <td class=\"contents\">Puns</td></tr></table>\
                </div></body></html>";
    let r = extract_joke(2, html, &sels);
    match r {
        ExtractionOutcome::Success(j) => {
            // Only direct child text nodes of the container form the body.
            assert_eq!(j.body, "first part\nsecond part");
        }
        other => panic!("expected success, got {:?}", other),
    }
}
