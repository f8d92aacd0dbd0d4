//! Recognition of filler sounds: which words a language treats as fillers, and which
//! drawn-out or stuttered tokens are renderings of a hesitation.
use super::patterns::{all_within, Span};
use super::strings::{append_chars, chars_of, part_of, same_chars, skip_while, spells, text_of};
use super::unicode::{
    alphabetic, lowercase_mapping, lowercase_text, lowercased, to_lowercase, uppercase,
};
use vstd::prelude::*;

verus! {

/// The characters of a language code before its region.
pub open spec fn code_char() -> spec_fn(char) -> bool {
    |c: char| c != '-' && c != '_'
}

/// A language code without its region.
pub open spec fn base_language(lang: Seq<char>) -> Seq<char> {
    lang.take(skip_while(lang, 0, code_char()))
}

/// The contents of a list of string slices.
pub open spec fn slices(list: Seq<&'static str>) -> Seq<Seq<char>> {
    list.map_values(|t: &'static str| t@)
}

/// The filler words of a language. Sounds that are ordinary words of the language are
/// not among them; a language that is not known has only sounds that are words of
/// none.
pub open spec fn filler_words(lang: Seq<char>) -> Seq<Seq<char>> {
    let base = base_language(lang);
    if base == "en"@ {
        seq![
            "uh"@,
            "um"@,
            "uhm"@,
            "erm"@,
            "err"@,
            "er"@,
            "ah"@,
            "eh"@,
            "hmm"@,
            "hm"@,
            "mmm"@,
            "mm"@,
            "mh"@,
            "mhm"@,
        ]
    } else if base == "es"@ {
        seq!["eh"@, "ehm"@, "em"@, "mmm"@, "hmm"@, "hm"@]
    } else if base == "pt"@ {
        seq!["ahm"@, "ahn"@, "hmm"@, "mmm"@, "hm"@]
    } else if base == "fr"@ {
        seq!["euh"@, "heu"@, "hmm"@, "hm"@, "mmm"@]
    } else if base == "de"@ {
        seq!["äh"@, "ähm"@, "hmm"@, "hm"@, "mmm"@]
    } else if base == "it"@ || base == "cs"@ {
        seq!["eh"@, "ehm"@, "hmm"@, "mmm"@, "hm"@]
    } else if base == "pl"@ {
        seq!["yyy"@, "eee"@, "hmm"@, "mmm"@, "hm"@]
    } else if base == "tr"@ || base == "vi"@ {
        seq!["hmm"@, "mmm"@, "hm"@]
    } else if base == "ru"@ {
        seq!["эм"@, "э"@, "хм"@, "гм"@, "кхм"@, "мгм"@, "мм"@, "hmm"@, "mmm"@]
    } else if base == "uk"@ {
        seq!["ем"@, "е"@, "хм"@, "гм"@, "кхм"@, "мгм"@, "мм"@, "hmm"@, "mmm"@]
    } else if base == "ar"@ || base == "ja"@ || base == "ko"@ || base == "zh"@ {
        seq!["hmm"@, "mmm"@]
    } else {
        seq!["uh"@, "uhm"@, "uhh"@, "uhhh"@, "hmm"@, "mmm"@]
    }
}

/// A language code without its region.
fn base_of<'a>(lang: &'a str) -> (r: &'a str)
    ensures
        r@ == base_language(lang@),
{
    let chars: Vec<char> = chars_of(lang);
    let mut end: usize = 0;
    while end < chars.len() && chars[end] != '-' && chars[end] != '_'
        invariant
            chars@ == lang@,
            end <= chars@.len(),
            skip_while(lang@, end as int, code_char()) == skip_while(lang@, 0, code_char()),
        decreases chars@.len() - end,
    {
        end = end + 1;
    }
    let base: &str = lang.substring_char(0, end);
    assert(base@ =~= base_language(lang@));
    base
}

/// Returns the filler words of a language.
///
/// Some sounds are words elsewhere (Portuguese "um" is an article, Russian "и" is
/// "and"), so a sound is listed only where the language makes its removal safe.
pub fn get_filler_words_for_language(lang: &str) -> (r: Vec<&'static str>)
    ensures
        slices(r@) == filler_words(lang@),
{
    let base: Vec<char> = chars_of(base_of(lang));
    let words: Vec<&'static str> = if spells(&base, "en") {
        vec![
            "uh",
            "um",
            "uhm",
            "erm",
            "err",
            "er",
            "ah",
            "eh",
            "hmm",
            "hm",
            "mmm",
            "mm",
            "mh",
            "mhm",
        ]
    } else if spells(&base, "es") {
        vec!["eh", "ehm", "em", "mmm", "hmm", "hm"]
    } else if spells(&base, "pt") {
        vec!["ahm", "ahn", "hmm", "mmm", "hm"]
    } else if spells(&base, "fr") {
        vec!["euh", "heu", "hmm", "hm", "mmm"]
    } else if spells(&base, "de") {
        vec!["äh", "ähm", "hmm", "hm", "mmm"]
    } else if spells(&base, "it") || spells(&base, "cs") {
        vec!["eh", "ehm", "hmm", "mmm", "hm"]
    } else if spells(&base, "pl") {
        vec!["yyy", "eee", "hmm", "mmm", "hm"]
    } else if spells(&base, "tr") || spells(&base, "vi") {
        vec!["hmm", "mmm", "hm"]
    } else if spells(&base, "ru") {
        vec!["эм", "э", "хм", "гм", "кхм", "мгм", "мм", "hmm", "mmm"]
    } else if spells(&base, "uk") {
        vec!["ем", "е", "хм", "гм", "кхм", "мгм", "мм", "hmm", "mmm"]
    } else if spells(&base, "ar") || spells(&base, "ja") || spells(&base, "ko") || spells(
        &base,
        "zh",
    ) {
        vec!["hmm", "mmm"]
    } else {
        vec!["uh", "uhm", "uhh", "uhhh", "hmm", "mmm"]
    };
    assert(slices(words@) =~= filler_words(lang@));
    words
}

/// A language code that leaves the language open.
pub open spec fn undetermined(base: Seq<char>) -> bool {
    base == ""@ || base == "auto"@ || base == "unknown"@ || base == "und"@
}

/// A Cyrillic letter.
pub open spec fn cyrillic(c: char) -> bool {
    0x0400 <= c as u32 <= 0x052f
}

/// The language whose fillers apply to a text: that of the code, or Russian for a
/// text with Cyrillic letters where the code leaves the language open.
pub open spec fn filler_language(lang: Seq<char>, text: Seq<char>) -> Seq<char> {
    let base = base_language(lang);
    if undetermined(base) && exists|i: int| 0 <= i < text.len() && cyrillic(#[trigger] text[i]) {
        "ru"@
    } else {
        base
    }
}

/// Resolves the language whose fillers apply to a text. Russian and Ukrainian share
/// the hesitation sounds, so Russian serves for any Cyrillic text.
pub fn resolve_filler_language<'a>(lang: &'a str, text: &str) -> (r: &'a str)
    ensures
        r@ == filler_language(lang@, text@),
{
    let base: &str = base_of(lang);
    let code: Vec<char> = chars_of(base);
    if !(spells(&code, "") || spells(&code, "auto") || spells(&code, "unknown") || spells(
        &code,
        "und",
    )) {
        return base;
    }
    let chars: Vec<char> = chars_of(text);
    let mut i: usize = 0;
    while i < chars.len()
        invariant
            chars@ == text@,
            i <= chars@.len(),
            undetermined(base_language(lang@)),
            forall|k: int| 0 <= k < i ==> !cyrillic(#[trigger] text@[k]),
        decreases chars@.len() - i,
    {
        let letter: u32 = chars[i] as u32;
        if 0x0400 <= letter && letter <= 0x052f {
            assert(cyrillic(text@[i as int]));
            return "ru";
        }
        i = i + 1;
    }
    base
}

/// The letters of a text, lowercased.
pub open spec fn lowercase_letters(text: Seq<char>) -> Seq<char>
    decreases text.len(),
{
    if text.len() == 0 {
        Seq::empty()
    } else if alphabetic(text.last()) {
        lowercase_letters(text.drop_last()) + lowercase_mapping(text.last())
    } else {
        lowercase_letters(text.drop_last())
    }
}

/// `s` with each run of equal characters reduced to one.
pub open spec fn squeezed(s: Seq<char>) -> Seq<char>
    decreases s.len(),
{
    if s.len() <= 1 {
        s
    } else if s.last() == s[s.len() - 2] {
        squeezed(s.drop_last())
    } else {
        squeezed(s.drop_last()).push(s.last())
    }
}

/// The sound that a token stands for, however it is drawn out.
pub open spec fn sound_form(text: Seq<char>) -> Seq<char> {
    squeezed(lowercase_letters(text))
}

/// Builds the sound that a token stands for, however it is drawn out.
pub fn canonical_sound_form(text: &Vec<char>) -> (r: Vec<char>)
    ensures
        r@ == sound_form(text@),
{
    let mut letters: Vec<char> = Vec::new();
    let mut i: usize = 0;
    while i < text.len()
        invariant
            i <= text@.len(),
            letters@ == lowercase_letters(text@.take(i as int)),
        decreases text@.len() - i,
    {
        assert(text@.take(i + 1).drop_last() =~= text@.take(i as int));
        if text[i].is_alphabetic() {
            let lower: Vec<char> = to_lowercase(text[i]);
            append_chars(&mut letters, &lower);
        }
        i = i + 1;
    }
    assert(text@.take(text@.len() as int) =~= text@);
    let mut form: Vec<char> = Vec::new();
    let mut k: usize = 0;
    while k < letters.len()
        invariant
            k <= letters@.len(),
            form@ == squeezed(letters@.take(k as int)),
        decreases letters@.len() - k,
    {
        assert(letters@.take(k + 1).drop_last() =~= letters@.take(k as int));
        if k == 0 || letters[k] != letters[k - 1] {
            form.push(letters[k]);
        }
        assert(k == 0 ==> form@ =~= letters@.take(1));
        k = k + 1;
    }
    assert(letters@.take(letters@.len() as int) =~= letters@);
    form
}

/// A hyphen or a dash.
pub open spec fn dash(c: char) -> bool {
    c == '-' || c == '‐' || c == '‑' || c == '‒' || c == '–' || c == '—'
}

/// The first lowercase character of each letter of a text.
pub open spec fn letter_heads(text: Seq<char>) -> Seq<char>
    decreases text.len(),
{
    if text.len() == 0 {
        Seq::empty()
    } else if alphabetic(text.last()) && !dash(text.last()) {
        letter_heads(text.drop_last()).push(lowercase_mapping(text.last())[0])
    } else {
        letter_heads(text.drop_last())
    }
}

/// A token rendered as a hesitation: with a dash in it, or with a letter repeated.
pub open spec fn hesitation_rendering(text: Seq<char>) -> bool {
    let heads = letter_heads(text);
    ||| exists|i: int| 0 <= i < text.len() && dash(#[trigger] text[i])
    ||| exists|i: int| 0 < i < heads.len() && heads[i - 1] == #[trigger] heads[i]
}

/// Whether `c` is a hyphen or a dash.
fn is_dash(c: char) -> (r: bool)
    ensures
        r == dash(c),
{
    c == '-' || c == '‐' || c == '‑' || c == '‒' || c == '–' || c == '—'
}

/// Whether a token is rendered as a hesitation: with a dash in it, or with a letter
/// repeated.
pub fn has_hesitation_rendering(text: &Vec<char>) -> (r: bool)
    ensures
        r == hesitation_rendering(text@),
{
    let mut previous: Option<char> = None;
    let mut repeated: bool = false;
    let mut i: usize = 0;
    while i < text.len()
        invariant
            i <= text@.len(),
            forall|k: int| 0 <= k < i ==> !dash(#[trigger] text@[k]),
            ({
                let heads = letter_heads(text@.take(i as int));
                &&& previous == if heads.len() == 0 {
                    None
                } else {
                    Some(heads.last())
                }
                &&& repeated == exists|k: int|
                    0 < k < heads.len() && heads[k - 1] == #[trigger] heads[k]
            }),
        decreases text@.len() - i,
    {
        let c: char = text[i];
        if is_dash(c) {
            assert(dash(text@[i as int]));
            return true;
        }
        let ghost heads = letter_heads(text@.take(i as int));
        assert(text@.take(i + 1).drop_last() =~= text@.take(i as int));
        let ghost more = letter_heads(text@.take(i + 1));
        if c.is_alphabetic() {
            let lower: Vec<char> = to_lowercase(c);
            let head: char = lower[0];
            let again: bool = match previous {
                None => false,
                Some(before) => before == head,
            };
            proof {
                assert(more == heads.push(head));
                if repeated {
                    let k = choose|k: int|
                        0 < k < heads.len() && heads[k - 1] == #[trigger] heads[k];
                    assert(more[k - 1] == more[k]);
                }
                if again {
                    assert(more[heads.len() - 1] == more[heads.len() as int]);
                }
                if exists|k: int| 0 < k < more.len() && more[k - 1] == #[trigger] more[k] {
                    let k = choose|k: int| 0 < k < more.len() && more[k - 1] == #[trigger] more[k];
                    if k < heads.len() {
                        assert(heads[k - 1] == heads[k]);
                    }
                }
            }
            if again {
                repeated = true;
            }
            previous = Some(head);
        }
        i = i + 1;
    }
    assert(text@.take(text@.len() as int) =~= text@);
    repeated
}

/// A vowel of the Cyrillic hesitation sounds.
pub open spec fn cyrillic_vowel(c: char) -> bool {
    c == 'а' || c == 'э' || c == 'е' || c == 'ё' || c == 'ы' || c == 'и' || c == 'о' || c == 'у'
        || c == 'я'
}

/// A consonant that a Cyrillic hesitation can consist of alone.
pub open spec fn cyrillic_hum(c: char) -> bool {
    c == 'м' || c == 'х' || c == 'г'
}

/// A vowel of the Latin hesitation sounds.
pub open spec fn latin_vowel(c: char) -> bool {
    c == 'a' || c == 'e' || c == 'i' || c == 'o' || c == 'u' || c == 'ä' || c == 'y'
}

/// A consonant that a Latin hesitation can consist of alone.
pub open spec fn latin_hum(c: char) -> bool {
    c == 'h' || c == 'm'
}

/// A sound that is a hesitation in Russian and Ukrainian: one leading vowel and
/// humming consonants after it, or nothing but humming consonants.
pub open spec fn cyrillic_hesitation(sound: Seq<char>) -> bool {
    ||| cyrillic_vowel(sound[0]) && forall|i: int|
        1 <= i < sound.len() ==> (cyrillic_hum(#[trigger] sound[i]) || sound[i] == 'к')
    ||| forall|i: int| 0 <= i < sound.len() ==> cyrillic_hum(#[trigger] sound[i])
}

/// A sound that is a hesitation in other languages: one leading vowel and humming or
/// murmured consonants after it, or nothing but humming consonants.
pub open spec fn latin_hesitation(sound: Seq<char>) -> bool {
    ||| latin_vowel(sound[0]) && forall|i: int|
        1 <= i < sound.len() ==> (latin_hum(#[trigger] sound[i]) || sound[i] == 'r' || sound[i]
            == 'n')
    ||| forall|i: int| 0 <= i < sound.len() ==> latin_hum(#[trigger] sound[i])
}

/// A token rendered as a hesitation whose sound is a hesitation of the language.
pub open spec fn generated_hesitation(text: Seq<char>, lang: Seq<char>) -> bool {
    let sound = sound_form(text);
    &&& hesitation_rendering(text)
    &&& 1 <= sound.len() <= 3
    &&& if lang == "ru"@ || lang == "uk"@ {
        cyrillic_hesitation(sound)
    } else {
        latin_hesitation(sound)
    }
}

/// Whether `c` is a vowel of the Cyrillic hesitation sounds.
fn is_cyrillic_vowel(c: char) -> (r: bool)
    ensures
        r == cyrillic_vowel(c),
{
    c == 'а' || c == 'э' || c == 'е' || c == 'ё' || c == 'ы' || c == 'и' || c == 'о' || c == 'у'
        || c == 'я'
}

/// Whether `c` is a vowel of the Latin hesitation sounds.
fn is_latin_vowel(c: char) -> (r: bool)
    ensures
        r == latin_vowel(c),
{
    c == 'a' || c == 'e' || c == 'i' || c == 'o' || c == 'u' || c == 'ä' || c == 'y'
}

/// Whether a sound is a hesitation in Russian and Ukrainian.
fn is_cyrillic_hesitation(sound: &Vec<char>) -> (r: bool)
    requires
        sound@.len() > 0,
    ensures
        r == cyrillic_hesitation(sound@),
{
    let mut hummed: bool = true;
    let mut led: bool = is_cyrillic_vowel(sound[0]);
    let mut i: usize = 0;
    while i < sound.len()
        invariant
            0 < sound@.len(),
            i <= sound@.len(),
            hummed == forall|k: int| 0 <= k < i ==> cyrillic_hum(#[trigger] sound@[k]),
            led == (cyrillic_vowel(sound@[0]) && forall|k: int|
                1 <= k < i ==> (cyrillic_hum(#[trigger] sound@[k]) || sound@[k] == 'к')),
        decreases sound@.len() - i,
    {
        let c: char = sound[i];
        let hum: bool = c == 'м' || c == 'х' || c == 'г';
        assert(hum == cyrillic_hum(sound@[i as int]));
        if !hum {
            hummed = false;
        }
        if i > 0 && !hum && c != 'к' {
            led = false;
        }
        i = i + 1;
    }
    led || hummed
}

/// Whether a sound is a hesitation in languages other than Russian and Ukrainian.
fn is_latin_hesitation(sound: &Vec<char>) -> (r: bool)
    requires
        sound@.len() > 0,
    ensures
        r == latin_hesitation(sound@),
{
    let mut hummed: bool = true;
    let mut led: bool = is_latin_vowel(sound[0]);
    let mut i: usize = 0;
    while i < sound.len()
        invariant
            0 < sound@.len(),
            i <= sound@.len(),
            hummed == forall|k: int| 0 <= k < i ==> latin_hum(#[trigger] sound@[k]),
            led == (latin_vowel(sound@[0]) && forall|k: int|
                1 <= k < i ==> (latin_hum(#[trigger] sound@[k]) || sound@[k] == 'r' || sound@[k]
                    == 'n')),
        decreases sound@.len() - i,
    {
        let c: char = sound[i];
        let hum: bool = c == 'h' || c == 'm';
        assert(hum == latin_hum(sound@[i as int]));
        if !hum {
            hummed = false;
        }
        if i > 0 && !hum && c != 'r' && c != 'n' {
            led = false;
        }
        i = i + 1;
    }
    led || hummed
}

/// Whether a token is a drawn-out or stuttered hesitation of the language, listed or
/// not.
pub fn is_generated_hesitation_variant(text: &Vec<char>, lang: &str) -> (r: bool)
    ensures
        r == generated_hesitation(text@, lang@),
{
    if !has_hesitation_rendering(text) {
        return false;
    }
    let sound: Vec<char> = canonical_sound_form(text);
    if sound.len() == 0 || sound.len() > 3 {
        return false;
    }
    let code: Vec<char> = chars_of(lang);
    if spells(&code, "ru") || spells(&code, "uk") {
        is_cyrillic_hesitation(&sound)
    } else {
        is_latin_hesitation(&sound)
    }
}

/// An uppercase token that is a filler all the same.
pub open spec fn uppercase_filler(text: Seq<char>) -> bool {
    text == "UH"@ || text == "UHM"@ || text == "ЭМ"@ || text == "ХМ"@ || text == "ММ"@ || text
        == "КХМ"@ || text == "МГМ"@ || text == "ЕМ"@
}

/// A token that stands for an abbreviation: two or more letters, all uppercase, and
/// none of the fillers that are written so.
pub open spec fn acronym(text: Seq<char>) -> bool {
    &&& text.len() >= 2
    &&& forall|i: int|
        0 <= i < text.len() ==> alphabetic(#[trigger] text[i]) && uppercase(text[i])
    &&& !uppercase_filler(text)
}

/// Whether a token stands for an abbreviation.
pub fn is_uppercase_acronym(text: &Vec<char>) -> (r: bool)
    ensures
        r == acronym(text@),
{
    if text.len() < 2 {
        return false;
    }
    let mut i: usize = 0;
    while i < text.len()
        invariant
            2 <= text@.len(),
            i <= text@.len(),
            forall|k: int|
                0 <= k < i ==> alphabetic(#[trigger] text@[k]) && uppercase(text@[k]),
        decreases text@.len() - i,
    {
        if !text[i].is_alphabetic() || !text[i].is_uppercase() {
            assert(!alphabetic(text@[i as int]) || !uppercase(text@[i as int]));
            return false;
        }
        i = i + 1;
    }
    !(spells(text, "UH") || spells(text, "UHM") || spells(text, "ЭМ") || spells(text, "ХМ")
        || spells(text, "ММ") || spells(text, "КХМ") || spells(text, "МГМ") || spells(text, "ЕМ"))
}

/// A token that is a filler of the language: one of its filler words in any case, a
/// hesitation that sounds like one of them, or another hesitation of the language;
/// never an abbreviation.
pub open spec fn filler_token(token: Seq<char>, lang: Seq<char>) -> bool {
    let fillers = filler_words(lang);
    &&& !acronym(token)
    &&& {
        ||| fillers.contains(lowercased(token))
        ||| hesitation_rendering(token) && exists|i: int|
            0 <= i < fillers.len() && sound_form(#[trigger] fillers[i]) == sound_form(token)
        ||| generated_hesitation(token, lang)
    }
}

/// Whether a token is a filler of the language.
fn is_filler_token(
    token: &Vec<char>,
    lang: &str,
    fillers: &Vec<&'static str>,
    sounds: &Vec<Vec<char>>,
) -> (r: bool)
    requires
        slices(fillers@) == filler_words(lang@),
        sounds@.len() == fillers@.len(),
        forall|i: int|
            0 <= i < sounds@.len() ==> (#[trigger] sounds@[i])@ == sound_form(fillers@[i]@),
    ensures
        r == filler_token(token@, lang@),
{
    if is_uppercase_acronym(token) {
        return false;
    }
    let spelling: String = text_of(token);
    let lower: String = lowercase_text(spelling.as_str());
    let small: Vec<char> = chars_of(lower.as_str());
    let sound: Vec<char> = canonical_sound_form(token);
    let rendered: bool = has_hesitation_rendering(token);
    let ghost list = filler_words(lang@);
    let mut i: usize = 0;
    while i < fillers.len()
        invariant
            i <= fillers@.len(),
            list == filler_words(lang@),
            slices(fillers@) == list,
            sounds@.len() == fillers@.len(),
            forall|k: int|
                0 <= k < sounds@.len() ==> (#[trigger] sounds@[k])@ == sound_form(fillers@[k]@),
            small@ == lowercased(token@),
            sound@ == sound_form(token@),
            rendered == hesitation_rendering(token@),
            !acronym(token@),
            forall|k: int| 0 <= k < i ==> #[trigger] list[k] != lowercased(token@),
            forall|k: int|
                0 <= k < i ==> !(rendered && sound_form(#[trigger] list[k]) == sound_form(token@)),
        decreases fillers@.len() - i,
    {
        assert(list[i as int] == fillers@[i as int]@);
        if spells(&small, fillers[i]) {
            assert(list.contains(lowercased(token@)));
            return true;
        }
        if rendered && same_chars(&sounds[i], &sound) {
            assert(sound_form(list[i as int]) == sound_form(token@));
            return true;
        }
        i = i + 1;
    }
    is_generated_hesitation_variant(token, lang)
}

/// The spans that cover no abbreviation, or all of them where abbreviations do not
/// count.
pub open spec fn removable(text: Seq<char>, preserve_acronyms: bool) -> spec_fn(Span) -> bool {
    |span: Span| !preserve_acronyms || !acronym(span.of(text))
}

/// The spans that cover a filler of the language.
pub open spec fn filler_span(text: Seq<char>, lang: Seq<char>) -> spec_fn(Span) -> bool {
    |span: Span| filler_token(span.of(text), lang)
}

/// Adds to `ranges` the matches to be removed: all of them, or those that are no
/// abbreviation.
pub fn collect_removal_matches(
    ranges: &mut Vec<Span>,
    text: &Vec<char>,
    matches: &Vec<Span>,
    preserve_uppercase_acronyms: bool,
)
    requires
        all_within(matches@, text@.len()),
    ensures
        final(ranges)@ == old(ranges)@ + matches@.filter(
            removable(text@, preserve_uppercase_acronyms),
        ),
{
    let ghost keep = removable(text@, preserve_uppercase_acronyms);
    let mut i: usize = 0;
    assert(matches@.take(0).filter(keep) =~= Seq::empty()) by {
        reveal(Seq::filter);
    }
    while i < matches.len()
        invariant
            all_within(matches@, text@.len()),
            keep == removable(text@, preserve_uppercase_acronyms),
            i <= matches@.len(),
            ranges@ == old(ranges)@ + matches@.take(i as int).filter(keep),
        decreases matches@.len() - i,
    {
        let span: Span = matches[i];
        assert(matches@[i as int].within(text@.len()));
        let token: Vec<char> = part_of(text, span.start, span.end);
        let ghost before = matches@.take(i as int);
        proof {
            assert(matches@.take(i + 1) =~= before.push(span));
            assert(before.push(span).drop_last() =~= before);
            reveal(Seq::filter);
        }
        if !preserve_uppercase_acronyms || !is_uppercase_acronym(&token) {
            ranges.push(span);
            assert(ranges@ =~= old(ranges)@ + before.filter(keep).push(span));
        }
        i = i + 1;
    }
    assert(matches@.take(matches@.len() as int) =~= matches@);
}

/// Adds to `ranges` the tokens of the text that are fillers of the language.
pub fn collect_builtin_filler_matches(
    ranges: &mut Vec<Span>,
    text: &Vec<char>,
    tokens: &Vec<Span>,
    lang: &str,
)
    requires
        all_within(tokens@, text@.len()),
    ensures
        final(ranges)@ == old(ranges)@ + tokens@.filter(filler_span(text@, lang@)),
{
    let fillers: Vec<&'static str> = get_filler_words_for_language(lang);
    let mut sounds: Vec<Vec<char>> = Vec::new();
    let mut n: usize = 0;
    while n < fillers.len()
        invariant
            n <= fillers@.len(),
            sounds@.len() == n,
            forall|k: int| 0 <= k < n ==> (#[trigger] sounds@[k])@ == sound_form(fillers@[k]@),
        decreases fillers@.len() - n,
    {
        let filler: Vec<char> = chars_of(fillers[n]);
        sounds.push(canonical_sound_form(&filler));
        n = n + 1;
    }
    let ghost keep = filler_span(text@, lang@);
    let mut i: usize = 0;
    assert(tokens@.take(0).filter(keep) =~= Seq::empty()) by {
        reveal(Seq::filter);
    }
    while i < tokens.len()
        invariant
            all_within(tokens@, text@.len()),
            slices(fillers@) == filler_words(lang@),
            sounds@.len() == fillers@.len(),
            forall|k: int|
                0 <= k < sounds@.len() ==> (#[trigger] sounds@[k])@ == sound_form(fillers@[k]@),
            keep == filler_span(text@, lang@),
            i <= tokens@.len(),
            ranges@ == old(ranges)@ + tokens@.take(i as int).filter(keep),
        decreases tokens@.len() - i,
    {
        let span: Span = tokens[i];
        assert(tokens@[i as int].within(text@.len()));
        let token: Vec<char> = part_of(text, span.start, span.end);
        let ghost before = tokens@.take(i as int);
        proof {
            assert(tokens@.take(i + 1) =~= before.push(span));
            assert(before.push(span).drop_last() =~= before);
            reveal(Seq::filter);
        }
        if is_filler_token(&token, lang, &fillers, &sounds) {
            ranges.push(span);
            assert(ranges@ =~= old(ranges)@ + before.filter(keep).push(span));
        }
        i = i + 1;
    }
    assert(tokens@.take(tokens@.len() as int) =~= tokens@);
}

} // verus!
