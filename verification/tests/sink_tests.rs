use wocka::record::{Joke, WockaJoke};
use wocka::sink::{encode_record, header_row, RecordSink};

fn row(title: &str, body: &str, footer: &str) -> Joke {
    Joke { title: title.to_string(), body: body.to_string(), footer: footer.to_string() }
}

#[test]
fn header_names_columns_in_order() {
    assert_eq!(header_row(), "title,body,footer\n");
}

#[test]
fn plain_fields_stay_unquoted() {
    let r = row("a", "b", "c");
    assert_eq!(encode_record(&r), "a,b,c\n");
}

#[test]
fn field_with_comma_is_quoted() {
    let r = row("a", "b, and c", "f");
    assert_eq!(encode_record(&r), "a,\"b, and c\",f\n");
}

#[test]
fn quotes_are_doubled_inside_quoted_field() {
    let r = row("say \"hi\"", "b", "f");
    assert_eq!(encode_record(&r), "\"say \"\"hi\"\"\",b,f\n");
}

#[test]
fn newline_in_body_is_quoted() {
    let r = row("t", "line one\nline two", "f");
    assert_eq!(encode_record(&r), "t,\"line one\nline two\",f\n");
}

#[test]
fn empty_fields_encode_as_empty() {
    let r = row("", "b", "");
    assert_eq!(encode_record(&r), ",b,\n");
}

#[test]
fn sink_keeps_append_order() {
    let mut sink = RecordSink::new();
    sink.append(&row("t1", "b1", "f1"));
    sink.append(&row("t2", "b2", "f2"));
    let rows = sink.rows();
    assert_eq!(rows.len(), 2);
    assert_eq!(rows[0], "t1,b1,f1\n");
    assert_eq!(rows[1], "t2,b2,f2\n");
}

#[test]
fn footer_synthesis_format() {
    let w = WockaJoke {
        title: "t".to_string(),
        body: "b".to_string(),
        id: 42,
        category: "Puns".to_string(),
    };
    let j = Joke::from_wocka(&w);
    assert_eq!(j.footer, "Source: wocka.com, Category: Puns, ID: 42");
    assert_eq!(j.title, "t");
    assert_eq!(j.body, "b");
}

#[test]
fn footer_of_single_digit_and_large_ids() {
    let mk = |id: u64| {
        let w = WockaJoke {
            title: String::new(),
            body: "b".to_string(),
            id,
            category: "C".to_string(),
        };
        Joke::from_wocka(&w).footer
    };
    assert_eq!(mk(1), "Source: wocka.com, Category: C, ID: 1");
    assert_eq!(mk(10), "Source: wocka.com, Category: C, ID: 10");
    assert_eq!(mk(90210), "Source: wocka.com, Category: C, ID: 90210");
    assert_eq!(mk(u64::MAX), "Source: wocka.com, Category: C, ID: 18446744073709551615");
}
