//! What holds of fillers: what may be taken for one, and what must be.
use super::fillers::{
    acronym, base_language, code_char, cyrillic, cyrillic_hesitation, cyrillic_hum, cyrillic_vowel,
    dash, filler_language, filler_token, filler_words, generated_hesitation, hesitation_rendering,
    latin_hesitation, latin_hum, latin_vowel, letter_heads, lowercase_letters, sound_form, squeezed,
};
use super::strings::{skip_while, skip_while_is_a_run};
use super::unicode::{alphabetic, lowercase_mapping, lowercased, uppercase};
use vstd::prelude::*;

verus! {

/// The letters of hesitations outside Russian and Ukrainian.
pub open spec fn latin_sound(c: char) -> bool {
    c == 'a' || c == 'e' || c == 'i' || c == 'o' || c == 'u' || c == 'ä' || c == 'y' || c == 'h'
        || c == 'm' || c == 'r' || c == 'n'
}

/// The letters of hesitations in Russian and Ukrainian.
pub open spec fn cyrillic_sound(c: char) -> bool {
    c == 'а' || c == 'э' || c == 'е' || c == 'ё' || c == 'ы' || c == 'и' || c == 'о' || c == 'у'
        || c == 'я' || c == 'м' || c == 'х' || c == 'г' || c == 'к'
}

/// Russian or Ukrainian.
pub open spec fn east_slavic(lang: Seq<char>) -> bool {
    lang == "ru"@ || lang == "uk"@
}

/// The letters of hesitations of a language.
pub open spec fn hesitation_letter(lang: Seq<char>, c: char) -> bool {
    if east_slavic(lang) {
        cyrillic_sound(c)
    } else {
        latin_sound(c)
    }
}

/// The consonants that may follow the vowel of a hesitation.
pub open spec fn murmur(lang: Seq<char>, c: char) -> bool {
    if east_slavic(lang) {
        c == 'м' || c == 'х' || c == 'г' || c == 'к'
    } else {
        c == 'h' || c == 'm' || c == 'r' || c == 'n'
    }
}

/// The consonants that a hesitation without a vowel consists of.
pub open spec fn hum(lang: Seq<char>, c: char) -> bool {
    if east_slavic(lang) {
        c == 'м' || c == 'х' || c == 'г'
    } else {
        c == 'h' || c == 'm'
    }
}

/// Squeezing keeps every character that there is, and adds none.
proof fn lemma_squeezing_keeps_characters(s: Seq<char>, c: char)
    ensures
        squeezed(s).contains(c) == s.contains(c),
        s.len() > 0 ==> squeezed(s).len() > 0 && squeezed(s)[0] == s[0] && squeezed(s).last()
            == s.last(),
    decreases s.len(),
{
    if s.len() > 1 {
        let rest = s.drop_last();
        lemma_squeezing_keeps_characters(rest, c);
        let n = s.len() as int;
        assert(rest.last() == s[n - 2]);
        let q = squeezed(rest);
        if s.contains(c) {
            let i = s.index_of(c);
            if i < n - 1 {
                assert(rest[i] == c);
                assert(q.contains(c));
                let k = q.index_of(c);
                assert(q.push(s.last())[k] == c);
            } else if s.last() == s[n - 2] {
                assert(rest[n - 2] == c);
            } else {
                assert(q.push(s.last())[q.len() as int] == c);
            }
        }
        if squeezed(s).contains(c) {
            let k = squeezed(s).index_of(c);
            if s.last() == s[n - 2] || k < q.len() {
                assert(q[k] == c);
                assert(rest.contains(c));
                let i = rest.index_of(c);
                assert(s[i] == c);
            } else {
                assert(s[n - 1] == c);
            }
        }
    }
}

/// The lowercase forms of the letters of a text are in its letters.
proof fn lemma_letters_are_there(text: Seq<char>, i: int, j: int)
    requires
        0 <= i < text.len(),
        alphabetic(text[i]),
        0 <= j < lowercase_mapping(text[i]).len(),
    ensures
        lowercase_letters(text).contains(lowercase_mapping(text[i])[j]),
    decreases text.len(),
{
    let rest = text.drop_last();
    let before = lowercase_letters(rest);
    let c = lowercase_mapping(text[i])[j];
    if i == text.len() - 1 {
        assert(lowercase_letters(text)[before.len() + j] == c);
    } else {
        assert(rest[i] == text[i]);
        lemma_letters_are_there(rest, i, j);
        let k = before.index_of(c);
        assert(lowercase_letters(text)[k] == c);
    }
}

/// A token that is removed as a hesitation without being listed is made of hesitation
/// letters only: one to three of them, with one vowel at most and that in front, and
/// without a vowel only humming ones.
pub proof fn hesitations_are_made_of_sounds(text: Seq<char>, lang: Seq<char>)
    requires
        generated_hesitation(text, lang),
    ensures
        forall|i: int, j: int|
            #![trigger lowercase_mapping(text[i])[j]]
            0 <= i < text.len() && alphabetic(text[i]) && 0 <= j < lowercase_mapping(text[i]).len()
                ==> hesitation_letter(lang, lowercase_mapping(text[i])[j]),
        1 <= sound_form(text).len() <= 3,
        forall|i: int|
            1 <= i < sound_form(text).len() ==> murmur(lang, #[trigger] sound_form(text)[i]),
        murmur(lang, sound_form(text)[0]) ==> forall|i: int|
            0 <= i < sound_form(text).len() ==> hum(lang, #[trigger] sound_form(text)[i]),
        hesitation_rendering(text),
{
    let sound = sound_form(text);
    if east_slavic(lang) {
        assert(cyrillic_hesitation(sound));
        assert forall|i: int| 1 <= i < sound.len() implies murmur(lang, #[trigger] sound[i]) by {
            assert(cyrillic_hum(sound[i]) || sound[i] == 'к');
        }
        if murmur(lang, sound[0]) {
            assert(!cyrillic_vowel(sound[0]));
            assert forall|i: int| 0 <= i < sound.len() implies hum(lang, #[trigger] sound[i]) by {
                assert(cyrillic_hum(sound[i]));
            }
        }
    } else {
        assert(latin_hesitation(sound));
        assert forall|i: int| 1 <= i < sound.len() implies murmur(lang, #[trigger] sound[i]) by {
            assert(latin_hum(sound[i]) || sound[i] == 'r' || sound[i] == 'n');
        }
        if murmur(lang, sound[0]) {
            assert(!latin_vowel(sound[0]));
            assert forall|i: int| 0 <= i < sound.len() implies hum(lang, #[trigger] sound[i]) by {
                assert(latin_hum(sound[i]));
            }
        }
    }
    assert forall|i: int, j: int|
        #![trigger lowercase_mapping(text[i])[j]]
        0 <= i < text.len() && alphabetic(text[i]) && 0 <= j < lowercase_mapping(
            text[i],
        ).len() implies hesitation_letter(lang, lowercase_mapping(text[i])[j]) by {
        let c = lowercase_mapping(text[i])[j];
        lemma_letters_are_there(text, i, j);
        lemma_squeezing_keeps_characters(lowercase_letters(text), c);
        let k = sound.index_of(c);
        assert(sound[k] == c);
        if k == 0 && !murmur(lang, c) {
            if east_slavic(lang) {
                assert(cyrillic_vowel(c) || cyrillic_hum(sound[0]));
            } else {
                assert(latin_vowel(c) || latin_hum(sound[0]));
            }
        }
    }
}

/// Every rendered sound of that make is a hesitation: a vowel of the language and
/// murmured consonants, or humming ones alone.
pub proof fn sounds_are_hesitations(text: Seq<char>, lang: Seq<char>)
    requires
        hesitation_rendering(text),
        1 <= sound_form(text).len() <= 3,
        hesitation_letter(lang, sound_form(text)[0]),
        forall|i: int|
            1 <= i < sound_form(text).len() ==> murmur(lang, #[trigger] sound_form(text)[i]),
        murmur(lang, sound_form(text)[0]) ==> forall|i: int|
            0 <= i < sound_form(text).len() ==> hum(lang, #[trigger] sound_form(text)[i]),
    ensures
        generated_hesitation(text, lang),
{
    let sound = sound_form(text);
    if east_slavic(lang) {
        if murmur(lang, sound[0]) {
            assert forall|i: int| 0 <= i < sound.len() implies cyrillic_hum(#[trigger] sound[i]) by {
                assert(hum(lang, sound[i]));
            }
        } else {
            assert forall|i: int| 1 <= i < sound.len() implies (cyrillic_hum(#[trigger] sound[i])
                || sound[i] == 'к') by {
                assert(murmur(lang, sound[i]));
            }
        }
    } else {
        if murmur(lang, sound[0]) {
            assert forall|i: int| 0 <= i < sound.len() implies latin_hum(#[trigger] sound[i]) by {
                assert(hum(lang, sound[i]));
            }
        } else {
            assert forall|i: int| 1 <= i < sound.len() implies (latin_hum(#[trigger] sound[i])
                || sound[i] == 'r' || sound[i] == 'n') by {
                assert(murmur(lang, sound[i]));
            }
        }
    }
}

/// One of the letters of a token is no letter of hesitations.
pub open spec fn holds_other_letter(token: Seq<char>, lang: Seq<char>) -> bool {
    exists|i: int, j: int|
        #![trigger lowercase_mapping(token[i])[j]]
        0 <= i < token.len() && alphabetic(token[i]) && 0 <= j < lowercase_mapping(token[i]).len()
            && !hesitation_letter(lang, lowercase_mapping(token[i])[j])
}

/// A token that is spelt like no listed filler, and is not drawn out, or sounds like no
/// listed filler and holds a letter that hesitations do not have.
pub open spec fn ordinary_word(token: Seq<char>, lang: Seq<char>) -> bool {
    &&& !filler_words(lang).contains(lowercased(token))
    &&& !hesitation_rendering(token) || (holds_other_letter(token, lang) && forall|i: int|
        0 <= i < filler_words(lang).len() ==> sound_form(#[trigger] filler_words(lang)[i])
            != sound_form(token))
}

/// Ordinary words are no fillers.
pub proof fn ordinary_words_are_no_fillers(token: Seq<char>, lang: Seq<char>)
    requires
        ordinary_word(token, lang),
    ensures
        !filler_token(token, lang),
{
    if generated_hesitation(token, lang) {
        hesitations_are_made_of_sounds(token, lang);
        let (i, j) = choose|i: int, j: int|
            #![trigger lowercase_mapping(token[i])[j]]
            0 <= i < token.len() && alphabetic(token[i]) && 0 <= j < lowercase_mapping(
                token[i],
            ).len() && !hesitation_letter(lang, lowercase_mapping(token[i])[j]);
        assert(hesitation_letter(lang, lowercase_mapping(token[i])[j]));
    }
}

/// What stands for an abbreviation: two letters or more, all of them capitals.
pub open spec fn all_capitals(token: Seq<char>) -> bool {
    token.len() >= 2 && forall|i: int|
        0 <= i < token.len() ==> alphabetic(#[trigger] token[i]) && uppercase(token[i])
}

/// The fillers that are fillers even in capitals.
pub open spec fn loud_filler(token: Seq<char>) -> bool {
    token == "UH"@ || token == "UHM"@ || token == "ЭМ"@ || token == "ХМ"@ || token == "ММ"@ || token
        == "КХМ"@ || token == "МГМ"@ || token == "ЕМ"@
}

/// Listed words are fillers in any case, and so is what draws them out and what is a
/// hesitation of its own; but nothing in capitals is, except the few that are fillers
/// even so.
pub proof fn fillers_are_recognised(token: Seq<char>, lang: Seq<char>, k: int)
    ensures
        acronym(token) <==> all_capitals(token) && !loud_filler(token),
        all_capitals(token) && !loud_filler(token) ==> !filler_token(token, lang),
        !all_capitals(token) || loud_filler(token) ==> {
            &&& filler_words(lang).contains(lowercased(token)) ==> filler_token(token, lang)
            &&& hesitation_rendering(token) && 0 <= k < filler_words(lang).len() && sound_form(
                filler_words(lang)[k],
            ) == sound_form(token) ==> filler_token(token, lang)
            &&& generated_hesitation(token, lang) ==> filler_token(token, lang)
        },
{
}

/// The hyphen and the dashes are told from everything else.
pub proof fn dashes_are_dashes(c: char)
    ensures
        dash(c) <==> c == '-' || c == '‐' || c == '‑' || c == '‒' || c == '–' || c == '—',
{
}

/// A token is rendered as a hesitation exactly where a dash stands in it, or two letters
/// in a row are the same but for their case.
pub proof fn rendering_is_dash_or_repeat(text: Seq<char>, i: int)
    ensures
        0 <= i < text.len() && dash(text[i]) ==> hesitation_rendering(text),
        0 < i < letter_heads(text).len() && letter_heads(text)[i - 1] == letter_heads(text)[i]
            ==> hesitation_rendering(text),
        (forall|k: int| 0 <= k < text.len() ==> !dash(#[trigger] text[k])) && (forall|k: int|
            0 < k < letter_heads(text).len() ==> letter_heads(text)[k - 1]
                != #[trigger] letter_heads(text)[k]) ==> !hesitation_rendering(text),
{
}

/// The letters of a text, the heads of its letters: both go character by character, and
/// only letters count.
pub proof fn letters_go_by_characters(a: Seq<char>, b: Seq<char>, c: char)
    ensures
        lowercase_letters(a + b) == lowercase_letters(a) + lowercase_letters(b),
        lowercase_letters(seq![c]) == (if alphabetic(c) {
            lowercase_mapping(c)
        } else {
            Seq::empty()
        }),
        letter_heads(a + b) == letter_heads(a) + letter_heads(b),
        letter_heads(seq![c]) == (if alphabetic(c) && !dash(c) {
            seq![lowercase_mapping(c)[0]]
        } else {
            Seq::empty()
        }),
    decreases b.len(),
{
    let none = Seq::<char>::empty();
    assert(seq![c].drop_last() =~= none);
    assert(seq![c].last() == c);
    assert(lowercase_letters(none) =~= none && letter_heads(none) =~= none);
    assert(none + lowercase_mapping(c) =~= lowercase_mapping(c));
    assert(none.push(lowercase_mapping(c)[0]) =~= seq![lowercase_mapping(c)[0]]);
    if b.len() == 0 {
        assert(a + b =~= a);
        assert(lowercase_letters(a) + lowercase_letters(b) =~= lowercase_letters(a));
        assert(letter_heads(a) + letter_heads(b) =~= letter_heads(a));
    } else {
        let rest = b.drop_last();
        letters_go_by_characters(a, rest, c);
        assert((a + b).drop_last() =~= a + rest);
        assert((a + b).last() == b.last());
        let m = lowercase_mapping(b.last());
        assert(lowercase_letters(a) + (lowercase_letters(rest) + m) =~= lowercase_letters(a)
            + lowercase_letters(rest) + m);
        assert(letter_heads(a) + letter_heads(rest).push(m[0]) =~= (letter_heads(a) + letter_heads(
            rest,
        )).push(m[0]));
    }
}

/// The sound form of a text is its letters with each run of equal ones reduced to one:
/// no two neighbours are equal, no character comes or goes, and letters without equal
/// neighbours stay as they are.
pub proof fn sound_form_has_no_repeats(text: Seq<char>, c: char)
    ensures
        no_repeats(sound_form(text)),
        sound_form(text).contains(c) == lowercase_letters(text).contains(c),
        no_repeats(lowercase_letters(text)) ==> sound_form(text) == lowercase_letters(text),
{
    let s = lowercase_letters(text);
    lemma_squeezing_keeps_characters(s, c);
    lemma_squeezed(s);
}

/// No character stands beside one that is equal to it.
pub open spec fn no_repeats(s: Seq<char>) -> bool {
    forall|i: int, j: int|
        0 <= i < j < s.len() && j == i + 1 ==> #[trigger] s[i] != #[trigger] s[j]
}

/// Squeezing leaves no equal neighbours, and changes nothing where there are none.
proof fn lemma_squeezed(s: Seq<char>)
    ensures
        no_repeats(squeezed(s)),
        no_repeats(s) ==> squeezed(s) == s,
    decreases s.len(),
{
    if s.len() > 1 {
        let rest = s.drop_last();
        let n = s.len() as int;
        lemma_squeezed(rest);
        lemma_squeezing_keeps_characters(rest, s.last());
        assert(rest.last() == s[n - 2]);
        let q = squeezed(rest);
        if s.last() != s[n - 2] {
            let r = q.push(s.last());
            assert forall|i: int, j: int| 0 <= i < j < r.len() && j == i + 1 implies (
            #[trigger] r[i] != #[trigger] r[j]) by {
                if j < q.len() {
                    assert(q[i] != q[j]);
                } else {
                    assert(r[i] == q.last());
                }
            }
        }
        if no_repeats(s) {
            assert(s[n - 2] != s[n - 1]);
            assert forall|i: int, j: int| 0 <= i < j < rest.len() && j == i + 1 implies (
            #[trigger] rest[i] != #[trigger] rest[j]) by {
                assert(s[i] != s[j]);
            }
            assert(rest.push(s.last()) =~= s);
        }
    }
}

/// Drawing a sound out does not change it: a run of equal characters counts as one,
/// wherever it stands and however long it is.
pub proof fn drawing_out_keeps_the_sound(a: Seq<char>, c: char, b: Seq<char>)
    ensures
        squeezed(a + seq![c, c] + b) == squeezed(a + seq![c] + b),
    decreases b.len(),
{
    let once = a + seq![c] + b;
    let twice = a + seq![c, c] + b;
    if b.len() == 0 {
        assert(twice.drop_last() =~= once);
        assert(twice.last() == c && twice[twice.len() - 2] == c);
    } else {
        let rest = b.drop_last();
        drawing_out_keeps_the_sound(a, c, rest);
        assert(once.drop_last() =~= a + seq![c] + rest);
        assert(twice.drop_last() =~= a + seq![c, c] + rest);
        assert(once.last() == twice.last());
        assert(once[once.len() - 2] == twice[twice.len() - 2]);
    }
}

/// The language of a code is what stands before its first hyphen or underscore, and the
/// whole code where there is none.
pub proof fn language_is_before_the_region(code: Seq<char>, mark: char, region: Seq<char>)
    requires
        forall|i: int| 0 <= i < code.len() ==> #[trigger] code[i] != '-' && code[i] != '_',
        mark == '-' || mark == '_',
    ensures
        base_language(code) == code,
        base_language(code + seq![mark] + region) == code,
{
    let whole = code + seq![mark] + region;
    let n = code.len() as int;
    skip_while_is_a_run(code, 0, code_char());
    skip_while_is_a_run(whole, 0, code_char());
    let e = skip_while(code, 0, code_char());
    let f = skip_while(whole, 0, code_char());
    if e < n {
        assert(code[e] != '-' && code[e] != '_');
    }
    assert(whole[n] == mark);
    if f < n {
        assert(whole[f] == code[f]);
    }
    if f > n {
        assert(code_char()(whole[n]));
    }
    assert(code.take(n) =~= code);
    assert(whole.take(n) =~= code);
}

/// Where the code leaves the language open, Cyrillic letters in the text make it
/// Russian; a code that names a language always stands.
pub proof fn open_language_goes_by_the_script(lang: Seq<char>, text: Seq<char>, i: int)
    ensures
        ({
            let base = base_language(lang);
            let open = base == ""@ || base == "auto"@ || base == "unknown"@ || base == "und"@;
            &&& open && 0 <= i < text.len() && 0x0400 <= text[i] as u32 <= 0x052f
                ==> filler_language(lang, text) == "ru"@
            &&& !open ==> filler_language(lang, text) == base
            &&& (forall|k: int|
                0 <= k < text.len() ==> !(0x0400 <= (#[trigger] text[k]) as u32 <= 0x052f))
                ==> filler_language(lang, text) == base
        }),
{
    if 0 <= i < text.len() && 0x0400 <= text[i] as u32 <= 0x052f {
        assert(cyrillic(text[i]));
    }
    if exists|k: int| 0 <= k < text.len() && cyrillic(#[trigger] text[k]) {
        let k = choose|k: int| 0 <= k < text.len() && cyrillic(#[trigger] text[k]);
        assert(0x0400 <= text[k] as u32 <= 0x052f);
    }
}

/// Only sounds are listed as fillers: every listed word is of letters that hesitations
/// have, outside Russian and Ukrainian of Latin ones alone, and no longer than four
/// letters.
pub proof fn listed_fillers_are_sounds(lang: Seq<char>, k: int, i: int)
    requires
        0 <= k < filler_words(lang).len(),
        0 <= i < filler_words(lang)[k].len(),
    ensures
        ({
            let c = filler_words(lang)[k][i];
            latin_sound(c) || (east_slavic(base_language(lang)) && cyrillic_sound(c))
        }),
        filler_words(lang)[k].len() <= 4,
{
    lemma_reveal_codes();
    lemma_reveal_fillers();
    let list = filler_words(lang);
}

/// Each language has its fillers and no more: "um" is one in English but not in
/// Portuguese, where it is a word, and a language that is not known has only sounds that
/// are words of none.
pub proof fn languages_have_their_fillers(lang: Seq<char>)
    ensures
        ({
            let base = base_language(lang);
            let list = filler_words(lang);
            &&& base == "en"@ ==> list.len() == 14 && list.contains("uh"@) && list.contains("um"@) && list.contains("uhm"@) && list.contains("erm"@) && list.contains("err"@) && list.contains("er"@) && list.contains("ah"@) && list.contains("eh"@) && list.contains("hmm"@) && list.contains("hm"@) && list.contains("mmm"@) && list.contains("mm"@) && list.contains("mh"@) && list.contains("mhm"@)
            &&& base == "es"@ ==> list.len() == 6 && list.contains("eh"@) && list.contains("ehm"@) && list.contains("em"@) && list.contains("mmm"@) && list.contains("hmm"@) && list.contains("hm"@)
            &&& base == "pt"@ ==> list.len() == 5 && list.contains("ahm"@) && list.contains("ahn"@) && list.contains("hmm"@) && list.contains("mmm"@) && list.contains("hm"@)
            &&& base == "fr"@ ==> list.len() == 5 && list.contains("euh"@) && list.contains("heu"@) && list.contains("hmm"@) && list.contains("hm"@) && list.contains("mmm"@)
            &&& base == "de"@ ==> list.len() == 5 && list.contains("äh"@) && list.contains("ähm"@) && list.contains("hmm"@) && list.contains("hm"@) && list.contains("mmm"@)
            &&& base == "it"@ ==> list.len() == 5 && list.contains("eh"@) && list.contains("ehm"@) && list.contains("hmm"@) && list.contains("mmm"@) && list.contains("hm"@)
            &&& base == "cs"@ ==> list.len() == 5 && list.contains("eh"@) && list.contains("ehm"@) && list.contains("hmm"@) && list.contains("mmm"@) && list.contains("hm"@)
            &&& base == "pl"@ ==> list.len() == 5 && list.contains("yyy"@) && list.contains("eee"@) && list.contains("hmm"@) && list.contains("mmm"@) && list.contains("hm"@)
            &&& base == "tr"@ ==> list.len() == 3 && list.contains("hmm"@) && list.contains("mmm"@) && list.contains("hm"@)
            &&& base == "vi"@ ==> list.len() == 3 && list.contains("hmm"@) && list.contains("mmm"@) && list.contains("hm"@)
            &&& base == "ru"@ ==> list.len() == 9 && list.contains("эм"@) && list.contains("э"@) && list.contains("хм"@) && list.contains("гм"@) && list.contains("кхм"@) && list.contains("мгм"@) && list.contains("мм"@) && list.contains("hmm"@) && list.contains("mmm"@)
            &&& base == "uk"@ ==> list.len() == 9 && list.contains("ем"@) && list.contains("е"@) && list.contains("хм"@) && list.contains("гм"@) && list.contains("кхм"@) && list.contains("мгм"@) && list.contains("мм"@) && list.contains("hmm"@) && list.contains("mmm"@)
            &&& base == "ar"@ ==> list.len() == 2 && list.contains("hmm"@) && list.contains("mmm"@)
            &&& base == "ja"@ ==> list.len() == 2 && list.contains("hmm"@) && list.contains("mmm"@)
            &&& base == "ko"@ ==> list.len() == 2 && list.contains("hmm"@) && list.contains("mmm"@)
            &&& base == "zh"@ ==> list.len() == 2 && list.contains("hmm"@) && list.contains("mmm"@)
            &&& base != "en"@ && base != "es"@ && base != "pt"@ && base != "fr"@ && base != "de"@ && base != "it"@ && base != "cs"@ && base != "pl"@ && base != "tr"@ && base != "vi"@ && base != "ru"@ && base != "uk"@ && base != "ar"@ && base != "ja"@ && base != "ko"@ && base != "zh"@ ==> list.len() == 6 && list.contains("uh"@) && list.contains("uhm"@) && list.contains("uhh"@) && list.contains("uhhh"@) && list.contains("hmm"@) && list.contains("mmm"@)
        }),
{
    lemma_reveal_codes();
    let base = base_language(lang);
    let list = filler_words(lang);
    if base == "en"@ {
        assert(list[0] == "uh"@ && list[1] == "um"@ && list[2] == "uhm"@ && list[3] == "erm"@ && list[4] == "err"@ && list[5] == "er"@ && list[6] == "ah"@ && list[7] == "eh"@ && list[8] == "hmm"@ && list[9] == "hm"@ && list[10] == "mmm"@ && list[11] == "mm"@ && list[12] == "mh"@ && list[13] == "mhm"@);
    }
    if base == "es"@ {
        assert(list[0] == "eh"@ && list[1] == "ehm"@ && list[2] == "em"@ && list[3] == "mmm"@ && list[4] == "hmm"@ && list[5] == "hm"@);
    }
    if base == "pt"@ {
        assert(list[0] == "ahm"@ && list[1] == "ahn"@ && list[2] == "hmm"@ && list[3] == "mmm"@ && list[4] == "hm"@);
    }
    if base == "fr"@ {
        assert(list[0] == "euh"@ && list[1] == "heu"@ && list[2] == "hmm"@ && list[3] == "hm"@ && list[4] == "mmm"@);
    }
    if base == "de"@ {
        assert(list[0] == "äh"@ && list[1] == "ähm"@ && list[2] == "hmm"@ && list[3] == "hm"@ && list[4] == "mmm"@);
    }
    if base == "it"@ {
        assert(list[0] == "eh"@ && list[1] == "ehm"@ && list[2] == "hmm"@ && list[3] == "mmm"@ && list[4] == "hm"@);
    }
    if base == "cs"@ {
        assert(list[0] == "eh"@ && list[1] == "ehm"@ && list[2] == "hmm"@ && list[3] == "mmm"@ && list[4] == "hm"@);
    }
    if base == "pl"@ {
        assert(list[0] == "yyy"@ && list[1] == "eee"@ && list[2] == "hmm"@ && list[3] == "mmm"@ && list[4] == "hm"@);
    }
    if base == "tr"@ {
        assert(list[0] == "hmm"@ && list[1] == "mmm"@ && list[2] == "hm"@);
    }
    if base == "vi"@ {
        assert(list[0] == "hmm"@ && list[1] == "mmm"@ && list[2] == "hm"@);
    }
    if base == "ru"@ {
        assert(list[0] == "эм"@ && list[1] == "э"@ && list[2] == "хм"@ && list[3] == "гм"@ && list[4] == "кхм"@ && list[5] == "мгм"@ && list[6] == "мм"@ && list[7] == "hmm"@ && list[8] == "mmm"@);
    }
    if base == "uk"@ {
        assert(list[0] == "ем"@ && list[1] == "е"@ && list[2] == "хм"@ && list[3] == "гм"@ && list[4] == "кхм"@ && list[5] == "мгм"@ && list[6] == "мм"@ && list[7] == "hmm"@ && list[8] == "mmm"@);
    }
    if base == "ar"@ {
        assert(list[0] == "hmm"@ && list[1] == "mmm"@);
    }
    if base == "ja"@ {
        assert(list[0] == "hmm"@ && list[1] == "mmm"@);
    }
    if base == "ko"@ {
        assert(list[0] == "hmm"@ && list[1] == "mmm"@);
    }
    if base == "zh"@ {
        assert(list[0] == "hmm"@ && list[1] == "mmm"@);
    }
    if base != "en"@ && base != "es"@ && base != "pt"@ && base != "fr"@ && base != "de"@ && base != "it"@ && base != "cs"@ && base != "pl"@ && base != "tr"@ && base != "vi"@ && base != "ru"@ && base != "uk"@ && base != "ar"@ && base != "ja"@ && base != "ko"@ && base != "zh"@ {
        assert(list[0] == "uh"@ && list[1] == "uhm"@ && list[2] == "uhh"@ && list[3] == "uhhh"@ && list[4] == "hmm"@ && list[5] == "mmm"@);
    }
}

/// The codes of the languages are told apart.
proof fn lemma_reveal_codes()
    ensures
        "en"@ == seq!['e', 'n'],
        "es"@ == seq!['e', 's'],
        "pt"@ == seq!['p', 't'],
        "fr"@ == seq!['f', 'r'],
        "de"@ == seq!['d', 'e'],
        "it"@ == seq!['i', 't'],
        "cs"@ == seq!['c', 's'],
        "pl"@ == seq!['p', 'l'],
        "tr"@ == seq!['t', 'r'],
        "vi"@ == seq!['v', 'i'],
        "ru"@ == seq!['r', 'u'],
        "uk"@ == seq!['u', 'k'],
        "ar"@ == seq!['a', 'r'],
        "ja"@ == seq!['j', 'a'],
        "ko"@ == seq!['k', 'o'],
        "zh"@ == seq!['z', 'h'],
{
    reveal_strlit("en");
    reveal_strlit("es");
    reveal_strlit("pt");
    reveal_strlit("fr");
    reveal_strlit("de");
    reveal_strlit("it");
    reveal_strlit("cs");
    reveal_strlit("pl");
    reveal_strlit("tr");
    reveal_strlit("vi");
    reveal_strlit("ru");
    reveal_strlit("uk");
    reveal_strlit("ar");
    reveal_strlit("ja");
    reveal_strlit("ko");
    reveal_strlit("zh");
}

/// How the fillers are spelt.
proof fn lemma_reveal_fillers()
    ensures
        "uh"@ == seq!['u', 'h'],
        "um"@ == seq!['u', 'm'],
        "uhm"@ == seq!['u', 'h', 'm'],
        "erm"@ == seq!['e', 'r', 'm'],
        "err"@ == seq!['e', 'r', 'r'],
        "er"@ == seq!['e', 'r'],
        "ah"@ == seq!['a', 'h'],
        "eh"@ == seq!['e', 'h'],
        "hmm"@ == seq!['h', 'm', 'm'],
        "hm"@ == seq!['h', 'm'],
        "mmm"@ == seq!['m', 'm', 'm'],
        "mm"@ == seq!['m', 'm'],
        "mh"@ == seq!['m', 'h'],
        "mhm"@ == seq!['m', 'h', 'm'],
        "ehm"@ == seq!['e', 'h', 'm'],
        "em"@ == seq!['e', 'm'],
        "ahm"@ == seq!['a', 'h', 'm'],
        "ahn"@ == seq!['a', 'h', 'n'],
        "euh"@ == seq!['e', 'u', 'h'],
        "heu"@ == seq!['h', 'e', 'u'],
        "äh"@ == seq!['ä', 'h'],
        "ähm"@ == seq!['ä', 'h', 'm'],
        "yyy"@ == seq!['y', 'y', 'y'],
        "eee"@ == seq!['e', 'e', 'e'],
        "uhh"@ == seq!['u', 'h', 'h'],
        "uhhh"@ == seq!['u', 'h', 'h', 'h'],
        "эм"@ == seq!['э', 'м'],
        "э"@ == seq!['э'],
        "хм"@ == seq!['х', 'м'],
        "гм"@ == seq!['г', 'м'],
        "кхм"@ == seq!['к', 'х', 'м'],
        "мгм"@ == seq!['м', 'г', 'м'],
        "мм"@ == seq!['м', 'м'],
        "ем"@ == seq!['е', 'м'],
        "е"@ == seq!['е'],
{
    reveal_strlit("uh");
    reveal_strlit("um");
    reveal_strlit("uhm");
    reveal_strlit("erm");
    reveal_strlit("err");
    reveal_strlit("er");
    reveal_strlit("ah");
    reveal_strlit("eh");
    reveal_strlit("hmm");
    reveal_strlit("hm");
    reveal_strlit("mmm");
    reveal_strlit("mm");
    reveal_strlit("mh");
    reveal_strlit("mhm");
    reveal_strlit("ehm");
    reveal_strlit("em");
    reveal_strlit("ahm");
    reveal_strlit("ahn");
    reveal_strlit("euh");
    reveal_strlit("heu");
    reveal_strlit("äh");
    reveal_strlit("ähm");
    reveal_strlit("yyy");
    reveal_strlit("eee");
    reveal_strlit("uhh");
    reveal_strlit("uhhh");
    reveal_strlit("эм");
    reveal_strlit("э");
    reveal_strlit("хм");
    reveal_strlit("гм");
    reveal_strlit("кхм");
    reveal_strlit("мгм");
    reveal_strlit("мм");
    reveal_strlit("ем");
    reveal_strlit("е");
}

} // verus!
