//! What holds of the patterns that fillers are found by.
use super::patterns::{
    escaped, literal_word, meta_character, repeatable_sounds, repeated_sound, repetition,
    ELONGATED_SOUND, TOKEN,
};
use super::strings::joined;
use vstd::prelude::*;

verus! {

/// The pattern matches whole words in any case: what `inner` matches, between word
/// boundaries.
pub open spec fn whole_words(pattern: Seq<char>, inner: Seq<char>) -> bool {
    pattern == r"(?iu)\b"@ + inner + r"\b"@
}

/// A listed word is matched as a whole, in any case, and as it is spelt.
pub proof fn listed_word_is_matched_whole(word: Seq<char>)
    ensures
        whole_words(literal_word(word), escaped(word)),
{
}

/// Spelling a word literally goes character by character: one that means something else
/// in a pattern gets a backslash, and any other stays.
pub proof fn literal_spelling_goes_by_characters(a: Seq<char>, b: Seq<char>, c: char)
    ensures
        escaped(a + b) == escaped(a) + escaped(b),
        escaped(seq![c]) == (if meta_character(c) {
            seq!['\\', c]
        } else {
            seq![c]
        }),
    decreases b.len(),
{
    let none = Seq::<char>::empty();
    assert(seq![c].drop_last() =~= none);
    assert(seq![c].last() == c);
    assert(escaped(none) =~= none);
    assert(none.push('\\').push(c) =~= seq!['\\', c]);
    assert(none.push(c) =~= seq![c]);
    if b.len() == 0 {
        assert(a + b =~= a);
        assert(escaped(a) + escaped(b) =~= escaped(a));
    } else {
        let rest = b.drop_last();
        let last = b.last();
        literal_spelling_goes_by_characters(a, rest, c);
        assert((a + b).drop_last() =~= a + rest);
        assert((a + b).last() == last);
        assert(escaped(a) + escaped(rest).push('\\').push(last) =~= (escaped(a) + escaped(
            rest,
        )).push('\\').push(last));
        assert(escaped(a) + escaped(rest).push(last) =~= (escaped(a) + escaped(rest)).push(last));
    }
}

/// A repetition is one sound three times or more, with white space or a dash between.
pub proof fn repetition_is_of_one_sound(sound: Seq<char>)
    ensures
        repetition(sound) == sound + "(?:"@ + r"(?:[ \t]*[-‐‑‒–—][ \t]*|[ \t]+)"@ + sound
            + "){2,}"@,
{
}

/// The sounds whose repetition is a filler, in Latin and in Cyrillic letters.
pub proof fn repeatable_sounds_are_hesitations()
    ensures
        repeatable_sounds().len() == 8,
        repeatable_sounds().contains("a+h+"@),
        repeatable_sounds().contains("u+h+"@),
        repeatable_sounds().contains("u+m+"@),
        repeatable_sounds().contains("e+r+"@),
        repeatable_sounds().contains("а+"@),
        repeatable_sounds().contains("э+"@),
        repeatable_sounds().contains("и+"@),
        repeatable_sounds().contains("эм+"@),
{
    let list = repeatable_sounds();
    assert(list[0] == "a+h+"@ && list[1] == "u+h+"@ && list[2] == "u+m+"@ && list[3] == "e+r+"@
        && list[4] == "а+"@ && list[5] == "э+"@ && list[6] == "и+"@ && list[7] == "эм+"@);
}

/// A repeated sound is the repetition of any one of the sounds.
pub proof fn repeated_sound_is_any_repetition()
    ensures
        repeated_sound() == r"(?iu)\b(?:"@ + joined(
            repeatable_sounds().map_values(|sound: Seq<char>| repetition(sound)),
            "|"@,
        ) + r")\b"@,
{
}

/// The sounds that count as drawn out, with how long each must be.
pub open spec fn drawn_out_sounds() -> Seq<Seq<char>> {
    seq![
        "a{3,}h*"@,
        "ah{2,}"@,
        "u{2,}h+"@,
        "uh{2,}"@,
        "u{2,}m+"@,
        "um{2,}"@,
        "e{2,}r+"@,
        "er{2,}"@,
        "а{3,}"@,
        "э{2,}"@,
        "и{3,}"@,
        "м{3,}"@,
        "эм{2,}"@,
    ]
}

/// A drawn out sound is any one of them, as a whole word in any case.
pub proof fn elongated_sound_is_any_drawn_out()
    ensures
        ELONGATED_SOUND@ == r"(?iu)\b(?:"@ + joined(drawn_out_sounds(), "|"@) + r")\b"@,
{
    reveal_strlit(
        r"(?iu)\b(?:a{3,}h*|ah{2,}|u{2,}h+|uh{2,}|u{2,}m+|um{2,}|e{2,}r+|er{2,}|а{3,}|э{2,}|и{3,}|м{3,}|эм{2,})\b",
    );
    reveal_strlit(r"(?iu)\b(?:");
    reveal_strlit(r")\b");
    reveal_strlit("|");
    reveal_strlit("a{3,}h*");
    reveal_strlit("ah{2,}");
    reveal_strlit("u{2,}h+");
    reveal_strlit("uh{2,}");
    reveal_strlit("u{2,}m+");
    reveal_strlit("um{2,}");
    reveal_strlit("e{2,}r+");
    reveal_strlit("er{2,}");
    reveal_strlit("а{3,}");
    reveal_strlit("э{2,}");
    reveal_strlit("и{3,}");
    reveal_strlit("м{3,}");
    reveal_strlit("эм{2,}");
    reveal_with_fuel(joined, 14);
    let list = drawn_out_sounds();
    assert(ELONGATED_SOUND@ =~= r"(?iu)\b(?:"@ + joined(list, "|"@) + r")\b"@);
}

/// A token is a run of letters, or several with dashes between them, as a whole word.
pub proof fn token_is_letters_and_dashes()
    ensures
        whole_words(TOKEN@, r"\p{L}+(?:[-‐‑‒–—]\p{L}+)*"@),
{
    reveal_strlit(r"(?iu)\b\p{L}+(?:[-‐‑‒–—]\p{L}+)*\b");
    reveal_strlit(r"\p{L}+(?:[-‐‑‒–—]\p{L}+)*");
    reveal_strlit(r"(?iu)\b");
    reveal_strlit(r"\b");
    assert(TOKEN@ =~= r"(?iu)\b"@ + r"\p{L}+(?:[-‐‑‒–—]\p{L}+)*"@ + r"\b"@);
}

} // verus!
