//! What the storage directory offers as tests.

use crate::settings::{spec_is_script, SCRIPT_SIGN};
use vstd::prelude::*;
use vstd::string::StringExecFns;

verus! {

/// The name under which a script is listed: its file name behind the sign
/// for scripts.
pub open spec fn script_entry(name: Seq<char>) -> Seq<char> {
    seq!['#', '!'] + name
}

/// The entries of the test list for the given word lists and scripts.
pub open spec fn storage_entries(words: Seq<String>, scripts: Seq<String>) -> Seq<Seq<char>> {
    Seq::new(
        words.len() + scripts.len(),
        |i: int|
            if i < words.len() {
                words[i]@
            } else {
                script_entry(scripts[i - words.len()]@)
            },
    )
}

/// The texts of a list of strings.
pub open spec fn texts_of(strings: Seq<String>) -> Seq<Seq<char>> {
    Seq::new(strings.len(), |i: int| strings[i]@)
}

/// The test list: the word lists by their file names, and behind them the
/// scripts, each file name marked as a script.
pub fn parse_storage_contents(words: Vec<String>, scripts: Vec<String>) -> (list: Vec<String>)
    ensures
        texts_of(list@) == storage_entries(words@, scripts@),
{
    let mut words_list = words;
    let mut i: usize = 0;
    while i < scripts.len()
        invariant
            i <= scripts.len(),
            words_list.len() == words.len() + i,
            forall|k: int| 0 <= k < words.len() ==> words_list[k]@ == words[k]@,
            forall|k: int|
                0 <= k < i ==> (#[trigger] words_list[words.len() + k])@ == script_entry(
                    scripts[k]@,
                ),
        decreases scripts.len() - i,
    {
        proof {
            reveal_strlit("#!");
        }
        let mut entry = SCRIPT_SIGN.to_owned();
        entry.append(scripts[i].as_str());
        assert(entry@ =~= script_entry(scripts[i as int]@));
        words_list.push(entry);
        i += 1;
    }
    assert(texts_of(words_list@) =~= storage_entries(words@, scripts@)) by {
        assert forall|k: int| 0 <= k < words_list.len() implies texts_of(words_list@)[k]
            == storage_entries(words@, scripts@)[k] by {
            if k >= words.len() {
                assert(words_list[words.len() + (k - words.len())]@ == script_entry(
                    scripts[k - words.len()]@,
                ));
            }
        }
    }
    words_list
}

/// The entry of a script is taken for a script, and without its sign it is
/// the file name of the script.
pub proof fn lemma_script_entry(name: Seq<char>)
    ensures
        spec_is_script(script_entry(name)),
        script_entry(name).subrange(2, script_entry(name).len() as int) == name,
{
    assert(script_entry(name).subrange(2, script_entry(name).len() as int) =~= name);
}

} // verus!
