use gigatype::text::{capitalize_first, parse_u64, postprocess};

#[test]
fn postprocesses_basic_russian_dictation() {
    assert_eq!(postprocess("привет мир"), "Привет мир.");
}

#[test]
fn turns_spoken_russian_punctuation_into_text() {
    assert_eq!(
        postprocess("привет запятая мир точка новая строка как дела вопросительный знак"),
        "Привет, мир.\nКак дела?"
    );
}

#[test]
fn leaves_silence_empty_instead_of_inventing_punctuation() {
    assert_eq!(postprocess("   "), "");
}

#[test]
fn does_not_find_voice_commands_inside_normal_words() {
    assert_eq!(postprocess("уточка плывёт"), "Уточка плывёт.");
}

#[test]
fn every_spoken_mark_becomes_its_symbol() {
    assert_eq!(
        postprocess("ну восклицательный знак так двоеточие это точка с запятой и многоточие"),
        "Ну! так: это; и…"
    );
}

#[test]
fn whitespace_is_squeezed_and_existing_punctuation_kept() {
    assert_eq!(postprocess("  да\t\tнет \u{00A0} может быть? "), "Да нет может быть?");
}

#[test]
fn a_spoken_new_line_alone_is_nothing() {
    assert_eq!(postprocess("новая строка"), "");
}

#[test]
fn capitalization_trims_and_uppercases_the_first_letter() {
    assert_eq!(capitalize_first("  ёлка "), "Ёлка");
    assert_eq!(capitalize_first("ß"), "SS");
    assert_eq!(capitalize_first(" \n "), "");
}

#[test]
fn numbers_parse_like_the_standard_library() {
    assert_eq!(parse_u64("120"), Some(120));
    assert_eq!(parse_u64("+7"), Some(7));
    assert_eq!(parse_u64("18446744073709551615"), Some(u64::MAX));
    assert_eq!(parse_u64("18446744073709551616"), None);
    assert_eq!(parse_u64(""), None);
    assert_eq!(parse_u64("+"), None);
    assert_eq!(parse_u64("-1"), None);
    assert_eq!(parse_u64("1 "), None);
}

#[test]
fn every_formatted_line_is_trimmed() {
    let inputs = [
        "  первая строка новая строка  вторая\tстрока новая строка ",
        "новая строка новая строка",
        "привет новая строка точка",
        "\u{a0}раз\u{2003}два новая строка три ",
    ];
    for input in inputs {
        let out = postprocess(input);
        for line in out.split('\n') {
            assert_eq!(line, line.trim(), "untrimmed line in {out:?}");
        }
    }
    assert_eq!(postprocess("раз новая строка  два "), "Раз\nДва.");
}
