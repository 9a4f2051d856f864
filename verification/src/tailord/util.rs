//! Profile names and the JSON files that hold the profiles.
use vstd::prelude::*;
use vstd::string::*;

use crate::tailord::error::FdoError;
use crate::text::{
    contains_char, contains_seq, contains_str, remove_all, remove_all_str, str_eq,
    trim, trim_end_char, trim_end_matches_char, trim_end_matches_str, trim_end_seq, trim_ws,
};

verus! {

/// A name that may be used for a profile: not `active_profile` and without
/// `/` or `.`.
pub open spec fn valid_profile_name(name: Seq<char>) -> bool {
    &&& name != "active_profile"@
    &&& !name.contains('/')
    &&& !name.contains('.')
}

/// The path of the JSON file of profile `name` in directory `base`: just
/// `name.json` for an empty base, else the trimmed base without trailing
/// slashes, a slash and `name.json`.
pub open spec fn json_path(base: Seq<char>, name: Seq<char>) -> Seq<char> {
    if base.len() == 0 {
        name + ".json"@
    } else {
        trim_end_char(trim_ws(base), '/') + "/"@ + name + ".json"@
    }
}

/// Checks that `name` can be used as a profile name and returns the path of
/// its JSON file in `base_path`.
pub fn normalize_json_path(base_path: &str, name: &str) -> (res: Result<String, FdoError>)
    ensures
        valid_profile_name(name@) <==> res is Ok,
        res matches Ok(path) ==> path@ == json_path(base_path@, name@),
        name@ == "active_profile"@ ==> (res matches Err(FdoError::InvalidArgs(m)) && m@
            == "Can't use name `active_profile`"@),
        name@ != "active_profile"@ && name@.contains('/') ==> (res matches Err(
            FdoError::InvalidArgs(m),
        ) && m@ == "Can't use '/' in profile names: `"@ + name@ + "`"@),
        name@ != "active_profile"@ && !name@.contains('/') && name@.contains('.') ==> (
        res matches Err(FdoError::InvalidArgs(m)) && m@ == "Can't use '.' in profile names: `"@
            + name@ + "`"@),
{
    // Make sure the name doesn't contain any illegal characters.
    if str_eq(name, "active_profile") {
        Err(FdoError::InvalidArgs(String::from_str("Can't use name `active_profile`")))
    } else if contains_char(name, '/') {
        let msg = String::from_str("Can't use '/' in profile names: `").concat(name).concat("`");
        Err(FdoError::InvalidArgs(msg))
    } else if contains_char(name, '.') {
        let msg = String::from_str("Can't use '.' in profile names: `").concat(name).concat("`");
        Err(FdoError::InvalidArgs(msg))
    } else if base_path.unicode_len() == 0 {
        Ok(String::from_str(name).concat(".json"))
    } else {
        let base = trim_end_matches_char(trim(base_path), '/');
        Ok(String::from_str(base).concat("/").concat(name).concat(".json"))
    }
}

/// The profile that a directory entry named `file_name` holds: the name with
/// every `.json` removed, for names that contain `.json`.
pub fn profile_name_from_file_name(file_name: &str) -> (res: Option<String>)
    ensures
        res is Some <==> contains_seq(file_name@, ".json"@),
        res matches Some(name) ==> name@ == remove_all(file_name@, ".json"@),
{
    proof {
        reveal_strlit(".json");
    }
    if contains_str(file_name, ".json") {
        Some(remove_all_str(file_name, ".json"))
    } else {
        None
    }
}

/// The profile that the last component of an active-profile link names:
/// the component without trailing `.json` suffixes.
pub fn profile_name_from_link_component(component: &str) -> (name: String)
    ensures
        name@ == trim_end_seq(component@, ".json"@),
{
    proof {
        reveal_strlit(".json");
    }
    trim_end_matches_str(component, ".json")
}

proof fn lemma_json_literal()
    ensures
        ".json"@ == seq!['.', 'j', 's', 'o', 'n'],
{
    reveal_strlit(".json");
    assert(".json"@ =~= seq!['.', 'j', 's', 'o', 'n']);
}

proof fn lemma_remove_json_suffix(s: Seq<char>)
    requires
        !s.contains('.'),
    ensures
        remove_all(s + ".json"@, ".json"@) == s,
    decreases s.len(),
{
    lemma_json_literal();
    let pat = ".json"@;
    let t = s + pat;
    if s.len() == 0 {
        assert(t =~= pat);
        assert(t.subrange(0, 5) =~= pat);
        assert(t.subrange(5, 5) =~= Seq::<char>::empty());
        assert(remove_all(t.subrange(5, 5), pat) == Seq::<char>::empty());
        assert(remove_all(t, pat) == remove_all(t.subrange(5, 5), pat));
        assert(s =~= Seq::<char>::empty());
    } else {
        assert(t[0] == s[0]);
        assert(s.contains(s[0]));
        assert(s[0] != '.');
        if t.len() >= 5 {
            assert(t.subrange(0, 5)[0] == t[0]);
            assert(t.subrange(0, 5) != pat);
        }
        assert(remove_all(t, pat) == seq![t[0]] + remove_all(t.drop_first(), pat));
        assert(t.drop_first() =~= s.drop_first() + pat);
        assert(!s.drop_first().contains('.')) by {
            if s.drop_first().contains('.') {
                let k = choose|k: int| 0 <= k < s.drop_first().len() && s.drop_first()[k] == '.';
                assert(s[k + 1] == '.');
            }
        }
        lemma_remove_json_suffix(s.drop_first());
        assert(s =~= seq![s[0]] + s.drop_first());
    }
}

proof fn lemma_trim_json_suffix(s: Seq<char>)
    requires
        !s.contains('.'),
    ensures
        trim_end_seq(s + ".json"@, ".json"@) == s,
{
    lemma_json_literal();
    let pat = ".json"@;
    let t = s + pat;
    assert(t.subrange(t.len() - 5, t.len() as int) =~= pat);
    assert(t.subrange(0, t.len() - 5) =~= s);
    assert(trim_end_seq(t, pat) == trim_end_seq(s, pat));
    if s.len() >= 5 {
        let tail = s.subrange(s.len() - 5, s.len() as int);
        assert(tail[0] == s[s.len() - 5]);
        assert(s.contains(s[s.len() - 5]));
        assert(tail != pat);
    }
    assert(trim_end_seq(s, pat) == s);
}

/// A profile stored under a valid name is found again under that name: its
/// file is `name.json` in the profile directory, listing the directory turns
/// that file name back into `name`, and the active-profile link to it is
/// read back as `name`.
pub proof fn lemma_profile_name_round_trip(base: Seq<char>, name: Seq<char>)
    requires
        valid_profile_name(name),
    ensures
        exists|dir: Seq<char>| json_path(base, name) == dir + name + ".json"@ && (dir.len() == 0
            || dir.last() == '/'),
        contains_seq(name + ".json"@, ".json"@),
        remove_all(name + ".json"@, ".json"@) == name,
        trim_end_seq(name + ".json"@, ".json"@) == name,
{
    lemma_json_literal();
    lemma_remove_json_suffix(name);
    lemma_trim_json_suffix(name);
    let t = name + ".json"@;
    assert(t.subrange(name.len() as int, name.len() as int + 5) =~= ".json"@);
    assert(crate::text::occurs_at(t, ".json"@, name.len() as int));
    reveal_strlit("/");
    if base.len() == 0 {
        assert(json_path(base, name) =~= Seq::<char>::empty() + name + ".json"@);
    } else {
        let dir = trim_end_char(trim_ws(base), '/') + "/"@;
        assert(dir.last() == '/');
        assert(json_path(base, name) =~= dir + name + ".json"@);
    }
}

} // verus!
