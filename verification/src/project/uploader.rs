//! Where an upload keeps its progress, and what it has uploaded already.

use crate::config::AmplitudeProjectSecrets;
use crate::names::{contains_text, first_occurrences, texts_view};
use std::collections::hash_map::DefaultHasher;
use std::hash::Hash;
use std::path::Path;
use vstd::prelude::*;
use vstd::string::*;

verus! {

/// The hexadecimal digit for a number below 16.
pub open spec fn hex_digit(d: nat) -> char {
    if d == 0 {
        '0'
    } else if d == 1 {
        '1'
    } else if d == 2 {
        '2'
    } else if d == 3 {
        '3'
    } else if d == 4 {
        '4'
    } else if d == 5 {
        '5'
    } else if d == 6 {
        '6'
    } else if d == 7 {
        '7'
    } else if d == 8 {
        '8'
    } else if d == 9 {
        '9'
    } else if d == 10 {
        'a'
    } else if d == 11 {
        'b'
    } else if d == 12 {
        'c'
    } else if d == 13 {
        'd'
    } else if d == 14 {
        'e'
    } else {
        'f'
    }
}

/// The number in hexadecimal digits, without leading zeros.
pub open spec fn hex_text(n: nat) -> Seq<char>
    decreases n,
{
    if n < 16 {
        seq![hex_digit(n)]
    } else {
        hex_text(n / 16).push(hex_digit(n % 16))
    }
}

/// The digits of a number that are still to be written; none for zero.
pub open spec fn hex_rest(n: nat) -> Seq<char> {
    if n == 0 {
        Seq::empty()
    } else {
        hex_text(n)
    }
}

/// The hexadecimal digit for a number below 16, as a text.
fn hex_str(d: u64) -> (digit: &'static str)
    requires
        d < 16,
    ensures
        digit@ =~= seq![hex_digit(d as nat)],
{
    if d == 0 {
        proof {
            reveal_strlit("0");
        }
        "0"
    } else if d == 1 {
        proof {
            reveal_strlit("1");
        }
        "1"
    } else if d == 2 {
        proof {
            reveal_strlit("2");
        }
        "2"
    } else if d == 3 {
        proof {
            reveal_strlit("3");
        }
        "3"
    } else if d == 4 {
        proof {
            reveal_strlit("4");
        }
        "4"
    } else if d == 5 {
        proof {
            reveal_strlit("5");
        }
        "5"
    } else if d == 6 {
        proof {
            reveal_strlit("6");
        }
        "6"
    } else if d == 7 {
        proof {
            reveal_strlit("7");
        }
        "7"
    } else if d == 8 {
        proof {
            reveal_strlit("8");
        }
        "8"
    } else if d == 9 {
        proof {
            reveal_strlit("9");
        }
        "9"
    } else if d == 10 {
        proof {
            reveal_strlit("a");
        }
        "a"
    } else if d == 11 {
        proof {
            reveal_strlit("b");
        }
        "b"
    } else if d == 12 {
        proof {
            reveal_strlit("c");
        }
        "c"
    } else if d == 13 {
        proof {
            reveal_strlit("d");
        }
        "d"
    } else if d == 14 {
        proof {
            reveal_strlit("e");
        }
        "e"
    } else {
        proof {
            reveal_strlit("f");
        }
        "f"
    }
}

/// The number in hexadecimal digits, without leading zeros.
pub fn to_hex(value: u64) -> (text: String)
    ensures
        text@ == hex_text(value as nat),
{
    let mut digits: Vec<u64> = Vec::new();
    let mut v: u64 = value;
    digits.push(v % 16);
    v = v / 16;
    assert(hex_text(value as nat) =~= hex_rest(v as nat) + digit_chars(digits@).reverse());
    while v > 0
        invariant
            digits@.len() >= 1,
            forall|k: int| 0 <= k < digits@.len() ==> digits@[k] < 16,
            hex_text(value as nat) == hex_rest(v as nat) + digit_chars(digits@).reverse(),
        decreases v,
    {
        let ghost before = digit_chars(digits@);
        let d = v % 16;
        digits.push(d);
        assert(digit_chars(digits@) =~= before.push(hex_digit(d as nat)));
        assert(digit_chars(digits@).reverse() =~= seq![hex_digit(d as nat)] + before.reverse());
        assert(hex_text(v as nat) =~= hex_rest((v / 16) as nat) + seq![hex_digit(d as nat)]);
        assert(hex_rest((v / 16) as nat) + digit_chars(digits@).reverse() =~= hex_text(v as nat)
            + before.reverse());
        v = v / 16;
    }
    let ghost wanted = digit_chars(digits@).reverse();
    assert(hex_text(value as nat) =~= wanted);
    let mut out = String::new();
    let mut j: usize = 0;
    while j < digits.len()
        invariant
            j <= digits.len(),
            wanted == digit_chars(digits@).reverse(),
            forall|k: int| 0 <= k < digits@.len() ==> digits@[k] < 16,
            out@ == wanted.take(j as int),
        decreases digits.len() - j,
    {
        let ghost before = out@;
        let d = digits[digits.len() - 1 - j];
        out.append(hex_str(d));
        assert(wanted[j as int] == hex_digit(d as nat));
        assert(out@ =~= before.push(hex_digit(d as nat)));
        assert(wanted.take(j + 1) =~= wanted.take(j as int).push(wanted[j as int]));
        j += 1;
    }
    assert(wanted.take(digits.len() as int) =~= wanted);
    out
}

/// The hexadecimal digits for a list of numbers below 16.
pub open spec fn digit_chars(digits: Seq<u64>) -> Seq<char> {
    digits.map_values(|d: u64| hex_digit(d as nat))
}

/// Calls `Hash::hash` of `std::path::Path` on the path that the text names.
/// Trusted: nothing is said of the hasher afterwards.
#[verifier::external_body]
fn hash_path(hasher: &mut DefaultHasher, path: &str) {
    Path::new(path).hash(hasher)
}

/// Calls `Hash::hash` of `str`. Trusted: nothing is said of the hasher
/// afterwards.
#[verifier::external_body]
fn hash_text(hasher: &mut DefaultHasher, text: &str) {
    text.hash(hasher)
}

/// A name for the uploads of one directory to one project: a hash of the
/// directory's path and the project's API key, in hexadecimal digits. The
/// same path and key give the same name as long as the program is the same.
pub fn generate_upload_hash(input_dir: &str, project_config: &AmplitudeProjectSecrets) -> (name:
    String)
    ensures
        exists|hash: u64| name@ == hex_text(hash as nat),
{
    let mut hasher = DefaultHasher::new();
    hash_path(&mut hasher, input_dir);
    hash_text(&mut hasher, project_config.api_key.as_str());
    let hash = std::hash::Hasher::finish(&hasher);
    to_hex(hash)
}

/// The directory in which the uploads of one directory to one project keep
/// their progress.
pub fn get_upload_output_dir(input_dir: &str, project_config: &AmplitudeProjectSecrets) -> (dir:
    String)
    ensures
        exists|hash: u64| dir@ == "./output/upload-progress/"@ + hex_text(hash as nat),
{
    let name = generate_upload_hash(input_dir, project_config);
    let mut dir = "./output/upload-progress/".to_owned();
    dir.append(name.as_str());
    dir
}

/// The text without the white space at its ends, as `str::trim` gives it.
pub uninterp spec fn trimmed(text: Seq<char>) -> Seq<char>;

/// Calls `str::trim`. Trusted: the result is a function of the text alone.
#[verifier::external_body]
fn trim_text(text: &str) -> (inner: String)
    ensures
        inner@ == trimmed(text@),
{
    text.trim().to_owned()
}

/// The insert ids that a progress file names, each once, in the order of
/// the file. `cleaned` holds the lines of the file without the white space
/// at their ends.
pub fn completed_ids_of(cleaned: &Vec<String>) -> (ids: Vec<String>)
    ensures
        texts_view(ids@) == first_occurrences(nonempty(texts_view(cleaned@))),
{
    let ghost all = texts_view(cleaned@);
    let mut ids: Vec<String> = Vec::new();
    let mut i: usize = 0;
    assert(all.take(0) =~= Seq::<Seq<char>>::empty());
    assert(texts_view(ids@) =~= Seq::<Seq<char>>::empty());
    while i < cleaned.len()
        invariant
            i <= cleaned.len(),
            all == texts_view(cleaned@),
            texts_view(ids@) == first_occurrences(nonempty(all.take(i as int))),
        decreases cleaned.len() - i,
    {
        assert(all.take(i + 1).drop_last() =~= all.take(i as int));
        assert(all.take(i + 1).last() == cleaned@[i as int]@);
        if cleaned[i].as_str().unicode_len() > 0 {
            assert(nonempty(all.take(i + 1)).drop_last() =~= nonempty(all.take(i as int)));
            if !contains_text(&ids, &cleaned[i]) {
                let ghost before = texts_view(ids@);
                ids.push(cleaned[i].clone());
                assert(texts_view(ids@) =~= before.push(cleaned@[i as int]@));
            }
        }
        i += 1;
    }
    assert(all.take(cleaned.len() as int) =~= all);
    ids
}

/// The texts of the list that are not empty, in order.
pub open spec fn nonempty(texts: Seq<Seq<char>>) -> Seq<Seq<char>>
    decreases texts.len(),
{
    if texts.len() == 0 {
        Seq::empty()
    } else if texts.last().len() == 0 {
        nonempty(texts.drop_last())
    } else {
        nonempty(texts.drop_last()).push(texts.last())
    }
}

/// The views of the lines without the white space at their ends.
pub open spec fn trimmed_lines(lines: Seq<String>) -> Seq<Seq<char>> {
    lines.map_values(|line: String| trimmed(line@))
}

/// The insert ids that a progress file names: its lines without the white
/// space at their ends, empty lines left out, each id once.
pub fn read_progress_file(lines: &Vec<String>) -> (ids: Vec<String>)
    ensures
        texts_view(ids@) == first_occurrences(nonempty(trimmed_lines(lines@))),
{
    let mut cleaned: Vec<String> = Vec::new();
    let mut i: usize = 0;
    while i < lines.len()
        invariant
            i <= lines.len(),
            cleaned@.len() == i,
            forall|j: int| 0 <= j < i ==> (#[trigger] cleaned@[j])@ == trimmed(lines@[j]@),
        decreases lines.len() - i,
    {
        cleaned.push(trim_text(lines[i].as_str()));
        i += 1;
    }
    assert(texts_view(cleaned@) =~= trimmed_lines(lines@));
    completed_ids_of(&cleaned)
}

} // verus!
