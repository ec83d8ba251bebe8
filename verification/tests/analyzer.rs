use text2track::text_analyzer::TextAnalyzer;

#[test]
fn test_text2param() {
    let text2param = TextAnalyzer::new("Hello, world!".to_string());
    assert_eq!(text2param.text, "Hello, world!".to_string());
}

#[test]
fn test_length() {
    let cases = vec![
        ("こんにちは, world!", 13),
        ("私の名前はジョンです", 10),
        ("東京五輪は2021年に延期された", 16),
        ("Jupyter NotebookはPythonで使えます", 28),
    ];

    for (text, expected) in cases {
        let text2param = TextAnalyzer::new(text.to_string());
        assert_eq!(text2param.length(), expected);
    }
}

#[test]
fn test_count_hiragana() {
    let cases = vec![
        ("こんにちは, world!", 5),
        ("私の名前はジョンです", 4),
        ("東京五輪は2021年に延期された", 5),
    ];

    for (text, expected) in cases {
        let text2param = TextAnalyzer::new(text.to_string());
        assert_eq!(text2param.count_hiragana(), expected);
    }
}

#[test]
fn test_count_katakana() {
    let cases = vec![
        ("こんにちは, world!", 0),
        ("私の名前はジョンです", 3),
        ("東京五輪は2021年に延期された", 0),
    ];

    for (text, expected) in cases {
        let text2param = TextAnalyzer::new(text.to_string());
        assert_eq!(text2param.count_katakana(), expected);
    }
}

#[test]
fn test_count_kanji() {
    let cases = vec![
        ("こんにちは, world!", 0),
        ("私の名前はジョンです", 3),
        ("東京五輪は2021年に延期された", 7),
    ];

    for (text, expected) in cases {
        let text2param = TextAnalyzer::new(text.to_string());
        assert_eq!(text2param.count_kanji(), expected);
    }
}

#[test]
fn test_count_alphabets() {
    let cases = vec![
        ("こんにちは, world!", 5),
        ("私の名前はジョンです", 0),
        ("東京五輪は2021年に延期された", 0),
        ("Jupyter NotebookはPythonで使えます", 21),
    ];

    for (text, expected) in cases {
        let text2param = TextAnalyzer::new(text.to_string());
        assert_eq!(text2param.count_alphabets(), expected);
    }
}

#[test]
fn test_length_empty() {
    let text2param = TextAnalyzer::new(String::new());
    assert_eq!(text2param.length(), 0);
    assert_eq!(text2param.count_hiragana(), 0);
    assert_eq!(text2param.count_katakana(), 0);
    assert_eq!(text2param.count_kanji(), 0);
    assert_eq!(text2param.count_alphabets(), 0);
}
