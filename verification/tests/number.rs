use xsar_display::number::is_float_literal;

#[test]
fn documented_float_literals_are_accepted() {
    for text in [
        "3.14", "-3.14", "2.5E10", "2.5e-10", "5.", ".5", "inf", "-inf", "+infinity", "NaN",
        "0", "+7", "1e5", "1E+05", "InFiNiTy", "nAn", "-.5e3", "00012",
    ] {
        assert!(is_float_literal(text), "{text}");
        assert!(text.parse::<f64>().is_ok(), "{text}");
    }
}

#[test]
fn other_texts_are_refused() {
    for text in [
        "", ".", "+", "-", "e5", "1e", "1e+", " 1", "1 ", "1.2.3", "0x10", "infinit", "nanx",
        "++1", "1,5", "1_000", ".e1", "inf1", "warm",
    ] {
        assert!(!is_float_literal(text), "{text}");
        assert!(text.parse::<f64>().is_err(), "{text}");
    }
}

fn all_strings(alphabet: &[char], max_len: usize) -> Vec<String> {
    let mut out = vec![String::new()];
    let mut layer = vec![String::new()];
    for _ in 0..max_len {
        let mut next = Vec::new();
        for s in &layer {
            for c in alphabet {
                let mut t = s.clone();
                t.push(*c);
                next.push(t);
            }
        }
        out.extend(next.iter().cloned());
        layer = next;
    }
    out
}

#[test]
fn agrees_with_std_on_short_texts() {
    let alphabet = ['0', '7', '.', 'e', 'E', '+', '-', 'i', 'n', 'f', 'a', ' ', 'x'];
    for text in all_strings(&alphabet, 4) {
        assert_eq!(is_float_literal(&text), text.parse::<f64>().is_ok(), "{text:?}");
    }
}

#[test]
fn agrees_with_std_on_words() {
    for word in ["inf", "infinity", "nan"] {
        for sign in ["", "+", "-"] {
            let text = format!("{sign}{word}");
            let upper = text.to_uppercase();
            for t in [text.clone(), upper, format!("{text}x"), format!("{text} ")] {
                assert_eq!(is_float_literal(&t), t.parse::<f64>().is_ok(), "{t:?}");
            }
        }
    }
}
