use autebooks::sanitize::{apply_pass, clean_html, clean_once, remove_boilerplate};

#[test]
fn clean_font_familly_1() {
    // Prepare
    let content = "<span style=\"color: rgba(0, 235, 255, 1); font-family: consolas, terminal, monaco\">txt</span>";

    // Act
    let actual = clean_html(content);

    // Assert
    let expected = String::from("<span style=\"color: rgba(0, 235, 255, 1);\">txt</span>");
    assert_eq!(actual, expected);
}

#[test]
fn clean_font_familly_2() {
    // Prepare
    let content = "<span style=\"font-family: consolas, terminal, monaco; color: rgba(0, 235, 255, 1)\">txt</span>";

    // Act
    let actual = clean_html(content);

    // Assert
    let expected = String::from("<span style=\"color: rgba(0, 235, 255, 1)\">txt</span>");
    assert_eq!(actual, expected);
}

#[test]
fn clean_nbsp() {
    // Prepare
    let content = "<p class=\"cnM5NDA4MTVmMmRlNzQ1ZjI5YmRmZDcxYjgxYTc5NGYx\" style=\"text-align: center\">&nbsp;</p>";

    // Act
    let actual = clean_html(content);

    // Assert
    let expected = String::new();
    assert_eq!(actual, expected);
}

#[test]
fn close_img_tag() {
    // Prepare
    let content = "<img src=\"https://site.com/img.gif\" alt=\"image\">";

    // Act
    let actual = clean_html(content);

    // Assert
    let expected = String::from("<img src=\"https://site.com/img.gif\" alt=\"image\"/>");
    assert_eq!(actual, expected);
}

#[test]
fn dont_break_closed_img_tag() {
    // Prepare
    let content = "<img src=\"https://site.com/img.gif\" alt=\"image\"/>";

    // Act
    let actual = clean_html(content);

    // Assert
    let expected = String::from("<img src=\"https://site.com/img.gif\" alt=\"image\"/>");
    assert_eq!(actual, expected);
}

#[test]
fn epub_clean_font_familly_1() {
    let content = "<span style=\"color: rgba(0, 235, 255, 1); font-family: consolas, terminal, monaco\">txt</span>";
    let actual = clean_html(content);
    let expected = String::from("<span style=\"color: rgba(0, 235, 255, 1);\">txt</span>");
    assert_eq!(actual, expected);
}

#[test]
fn epub_clean_font_familly_2() {
    let content = "<span style=\"font-family: consolas, terminal, monaco; color: rgba(0, 235, 255, 1)\">txt</span>";
    let actual = clean_html(content);
    let expected = String::from("<span style=\"color: rgba(0, 235, 255, 1)\">txt</span>");
    assert_eq!(actual, expected);
}

#[test]
fn epub_clean_nbsp() {
    let content = "<p class=\"cnM5NDA4MTVmMmRlNzQ1ZjI5YmRmZDcxYjgxYTc5NGYx\" style=\"text-align: center\">&nbsp;</p>";
    let actual = clean_html(content);
    let expected = String::from("");
    assert_eq!(actual, expected);
}

#[test]
fn epub_close_img_tag() {
    let content = "<img src=\"https://site.com/img.gif\" alt=\"image\">";
    let actual = clean_html(content);
    let expected = String::from("<img src=\"https://site.com/img.gif\" alt=\"image\"/>");
    assert_eq!(actual, expected);
}

#[test]
fn epub_dont_break_closed_img_tag() {
    let content = "<img src=\"https://site.com/img.gif\" alt=\"image\"/>";
    let actual = clean_html(content);
    let expected = String::from("<img src=\"https://site.com/img.gif\" alt=\"image\"/>");
    assert_eq!(actual, expected);
}

#[test]
fn font_weight_normal_and_400_are_stripped() {
    assert_eq!(
        clean_html("<span style=\"font-weight: normal; color: red\">a</span>"),
        "<span style=\"; color: red\">a</span>"
    );
    assert_eq!(
        clean_html("<span style=\"font-weight:400\">a</span>"),
        "<span style=\"\">a</span>"
    );
    // Other weights stay.
    assert_eq!(
        clean_html("<span style=\"font-weight: 700\">a</span>"),
        "<span style=\"font-weight: 700\">a</span>"
    );
}

#[test]
fn class_attributes_are_stripped() {
    assert_eq!(clean_html("<p class=\"cjABC\">text</p>"), "<p>text</p>");
    assert_eq!(
        clean_html("<div class=\"a\"><span class=\"b c\">x</span></div>"),
        "<div><span>x</span></div>"
    );
}

#[test]
fn void_elements_are_closed() {
    assert_eq!(clean_html("a<br>b<hr>c"), "a<br/>b<hr/>c");
    assert_eq!(clean_html("a<br/>b<hr/>c"), "a<br/>b<hr/>c");
}

#[test]
fn overflow_auto_is_stripped() {
    assert_eq!(
        clean_html("<div style=\"overflow: auto\">t</div>"),
        "<div style=\"\">t</div>"
    );
    assert_eq!(
        clean_html("<div style=\"overflow:auto\">t</div>"),
        "<div style=\"\">t</div>"
    );
}

#[test]
fn boilerplate_sentences_are_removed() {
    let text = "<p>Before.</p><p>Stolen from Royal Road, this story should be reported if encountered on Amazon.</p><p>After.</p>";
    assert_eq!(clean_html(text), "<p>Before.</p><p>After.</p>");
    assert_eq!(
        remove_boilerplate(
            "xThis story has been stolen from Royal Road. If you read it on Amazon, please report ity"
                .to_string()
        ),
        "xy"
    );
    assert_eq!(remove_boilerplate("nothing to see".to_string()), "nothing to see");
}

#[test]
fn a_pass_keeps_the_text_when_there_is_no_outcome() {
    assert_eq!(apply_pass("kept".to_string(), None), "kept");
    assert_eq!(apply_pass("old".to_string(), Some("new".to_string())), "new");
}

#[test]
fn sanitizing_twice_changes_nothing_more_on_ordinary_markup() {
    let inputs = [
        "<p class=\"x\" style=\"font-family: a, b; color: red\">Hello<br>world</p>",
        "<img src=\"https://site.com/a.png\"><p>&nbsp;</p><hr>",
        "<div style=\"overflow: auto; font-weight: normal\">t</div>",
        "plain text",
        "",
    ];
    for input in inputs {
        let once = clean_html(input);
        let twice = clean_html(&once);
        assert_eq!(once, twice);
    }
}

#[test]
fn what_one_round_uncovers_is_cleaned_by_the_next() {
    // One round leaves a declaration that the round itself put together.
    let nested = "font-weight:font-weight: normal normal";
    assert_eq!(clean_once(nested), "font-weight: normal");
    assert_eq!(clean_html(nested), "");
    // A paragraph that holds only an empty paragraph goes with it.
    assert_eq!(clean_once("<p><p></p></p>"), "<p></p>");
    assert_eq!(clean_html("<p><p></p></p>"), "");
    assert_eq!(clean_html("a<p><p><p><p> </p></p>&nbsp;</p></p>b"), "ab");
    let text = "<p>Before.</p><p>Stolen from Royal Road, this story should be reported if encountered on Amazon.</p><p>After.</p>";
    assert_eq!(clean_once(text), "<p>Before.</p><p></p><p>After.</p>");
    assert_eq!(clean_html(text), "<p>Before.</p><p>After.</p>");
}

#[test]
fn sanitizing_what_was_sanitized_changes_nothing() {
    let inputs = [
        "font-weight:font-weight: normal normal",
        "<p><p><p></p></p></p>",
        "<p class=\"x\" style=\"font-family: a, b; color: red\">Hello<br>world</p>",
        "<img src=\"https://site.com/a.png\"><p>&nbsp;</p><hr>",
        "<div style=\"overflow: auto; font-weight: normal\">t</div>",
        "<p>&nbsp;<img src=x></p><br><br/>",
        " class=\" class=\"a\"\"",
        "",
    ];
    for input in inputs {
        let once = clean_html(input);
        assert_eq!(clean_once(&once), once, "{input:?}");
        assert_eq!(clean_html(&once), once, "{input:?}");
    }
}
