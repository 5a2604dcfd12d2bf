//! Rules that select files by extension and by what their path contains.
//!
//! A rule is an extension and a list of tokens. It holds of a path whose extension is
//! the rule's and whose text contains every token. A matcher holds one rule for each
//! extension and selects the paths of which one of its rules holds.

use vstd::prelude::*;
use vstd::hash_map::StringHashMap;
use vstd::string::StrSliceExecFns;
use crate::path::{extension, extension_bounds, file_name, lemma_file_name_shape};
use crate::text::{chars_of, contains, is_substring, last_index_of, lemma_last_index_of};

verus! {

/// Why a rule table could not be built.
#[derive(Debug, Clone, Copy, PartialEq, Eq, Structural)]
pub enum FileMatcherConstructionError {
    /// A rule definition was empty and so named no extension.
    NotEnoughElements,
}

/// Why a matcher could not be had, or could not judge a path.
#[derive(Debug, Clone, Copy, PartialEq, Eq, Structural)]
pub enum MatchError {
    /// The path has no form as text. `FileMatcher::matches` takes text and never
    /// answers this; it is what a caller reports of a path it cannot hand over.
    CannotConvertToString,
    /// The path has no extension.
    MissingExtension,
    /// The rule table could not be built.
    Construction(FileMatcherConstructionError),
}

impl MatchError {
    /// The name of the error.
    pub open spec fn name_text(self) -> Seq<char> {
        match self {
            MatchError::CannotConvertToString => "CannotConvertToString"@,
            MatchError::MissingExtension => "MissingExtension"@,
            MatchError::Construction(_) => "Construction"@,
        }
    }

    /// The name of the error, for display.
    pub fn name(&self) -> (s: String)
        ensures
            s@ == self.name_text(),
    {
        match self {
            MatchError::CannotConvertToString => "CannotConvertToString".to_owned(),
            MatchError::MissingExtension => "MissingExtension".to_owned(),
            MatchError::Construction(_) => "Construction".to_owned(),
        }
    }
}

impl FileMatcherConstructionError {
    /// The name of the error.
    pub open spec fn name_text(self) -> Seq<char> {
        "NotEnoughElements"@
    }

    /// The name of the error, for display.
    pub fn name(&self) -> (s: String)
        ensures
            s@ == self.name_text(),
    {
        "NotEnoughElements".to_owned()
    }
}

/// Every definition names an extension.
pub open spec fn well_formed(defs: Seq<Seq<Seq<char>>>) -> bool {
    forall|i: int| 0 <= i < defs.len() ==> (#[trigger] defs[i]).len() > 0
}

/// The rules that a list of definitions gives. The first text of a definition is the
/// extension, the rest are the tokens; a later definition replaces an earlier one for
/// the same extension.
pub open spec fn rule_map(defs: Seq<Seq<Seq<char>>>) -> Map<Seq<char>, Seq<Seq<char>>>
    decreases defs.len(),
{
    if defs.len() == 0 {
        Map::empty()
    } else {
        rule_map(defs.drop_last()).insert(defs.last()[0], defs.last().skip(1))
    }
}

/// Every token occurs in `text`. With no tokens this holds of every text.
pub open spec fn contains_all(text: Seq<char>, tokens: Seq<Seq<char>>) -> bool {
    forall|k: int| 0 <= k < tokens.len() ==> is_substring(text, #[trigger] tokens[k])
}

/// `rules` has a rule for the extension `ext` that holds of the text `text`.
pub open spec fn rule_holds(
    rules: Map<Seq<char>, Seq<Seq<char>>>,
    ext: Seq<char>,
    text: Seq<char>,
) -> bool {
    rules.contains_key(ext) && contains_all(text, rules[ext])
}

/// What a matcher with the rules `rules` answers for the path `path`.
pub open spec fn match_result(rules: Map<Seq<char>, Seq<Seq<char>>>, path: Seq<char>) -> Result<
    bool,
    MatchError,
> {
    match extension(path) {
        None => Err(MatchError::MissingExtension),
        Some(ext) => Ok(rule_holds(rules, ext, path)),
    }
}

/// The rules know an extension exactly when some definition starts with it.
pub proof fn lemma_rule_map_domain(defs: Seq<Seq<Seq<char>>>, ext: Seq<char>)
    ensures
        rule_map(defs).contains_key(ext) <==> exists|i: int|
            0 <= i < defs.len() && (#[trigger] defs[i])[0] == ext,
    decreases defs.len(),
{
    if defs.len() > 0 {
        let front = defs.drop_last();
        lemma_rule_map_domain(front, ext);
        if rule_map(defs).contains_key(ext) {
            if defs.last()[0] == ext {
                assert(defs[defs.len() - 1][0] == ext);
            } else {
                let i = choose|i: int| 0 <= i < front.len() && (#[trigger] front[i])[0] == ext;
                assert(defs[i][0] == ext);
            }
        } else {
            assert forall|i: int| 0 <= i < defs.len() implies (#[trigger] defs[i])[0] != ext by {
                if i < front.len() {
                    assert(front[i][0] != ext);
                }
            }
        }
    }
}

/// The last definition for an extension decides its tokens: where no later definition
/// starts with the extension of definition `i`, the rule for it has the tokens of `i`.
pub proof fn lemma_last_definition_wins(defs: Seq<Seq<Seq<char>>>, i: int)
    requires
        0 <= i < defs.len(),
        forall|j: int| i < j < defs.len() ==> (#[trigger] defs[j])[0] != defs[i][0],
    ensures
        rule_map(defs).contains_key(defs[i][0]),
        rule_map(defs)[defs[i][0]] == defs[i].skip(1),
    decreases defs.len(),
{
    if i < defs.len() - 1 {
        let front = defs.drop_last();
        assert(front[i] == defs[i]);
        assert forall|j: int| i < j < front.len() implies (#[trigger] front[j])[0]
            != front[i][0] by {
            assert(front[j] == defs[j]);
        }
        lemma_last_definition_wins(front, i);
        assert(defs[defs.len() - 1][0] != defs[i][0]);
    }
}

/// A path has no extension exactly when it ends in no name, or in a name that holds no
/// dot, or ends in a dot, or has its only dot in front. For such a path, and for no
/// other, the answer is `MissingExtension`, whatever the rules.
pub proof fn lemma_missing_extension(rules: Map<Seq<char>, Seq<Seq<char>>>, path: Seq<char>)
    ensures
        match_result(rules, path) == Err::<bool, MatchError>(MatchError::MissingExtension) <==> (
        match file_name(path) {
            None => true,
            Some(name) => !name.contains('.') || name.last() == '.' || (name[0] == '.'
                && !name.skip(1).contains('.')),
        }),
{
    if let Some(name) = file_name(path) {
        lemma_file_name_shape(path);
        lemma_last_index_of(name, '.');
        let dot = last_index_of(name, '.');
        if name[0] == '.' && !name.skip(1).contains('.') {
            assert forall|j: int| 0 < j < name.len() implies name[j] != '.' by {
                assert(name.skip(1)[j - 1] == name[j]);
            }
            assert(dot == 0);
        }
        if dot == 0 {
            assert forall|j: int| 0 <= j < name.skip(1).len() implies name.skip(1)[j] != '.' by {
                assert(name.skip(1)[j] == name[j + 1]);
            }
        }
    }
}

/// For a path with the extension `ext`, the answer is `true` exactly when there is a rule
/// for `ext` and the path contains each of its tokens. A rule without tokens holds of
/// every path with its extension.
pub proof fn lemma_match_iff_rule_holds(
    rules: Map<Seq<char>, Seq<Seq<char>>>,
    path: Seq<char>,
    ext: Seq<char>,
)
    requires
        extension(path) == Some(ext),
    ensures
        match_result(rules, path) is Ok,
        match_result(rules, path) == Ok::<bool, MatchError>(true) <==> rules.contains_key(ext) && (
        forall|k: int| 0 <= k < rules[ext].len() ==> is_substring(path, #[trigger] rules[ext][k])),
        rules.contains_key(ext) && rules[ext].len() == 0 ==> match_result(rules, path) == Ok::<
            bool,
            MatchError,
        >(true),
{
}

/// No definitions give no rules, and without rules the answer for a path with an
/// extension is `false`.
pub proof fn lemma_no_rules_select_nothing(path: Seq<char>)
    requires
        extension(path) is Some,
    ensures
        rule_map(Seq::empty()) == Map::<Seq<char>, Seq<Seq<char>>>::empty(),
        match_result(rule_map(Seq::empty()), path) == Ok::<bool, MatchError>(false),
{
}

/// A matcher built from `defs` judges a path by the last definition for the path's
/// extension: the answer is whether the path contains every token of that definition.
pub proof fn lemma_match_by_last_definition(defs: Seq<Seq<Seq<char>>>, i: int, path: Seq<char>)
    requires
        0 <= i < defs.len(),
        extension(path) == Some(defs[i][0]),
        forall|j: int| i < j < defs.len() ==> (#[trigger] defs[j])[0] != defs[i][0],
    ensures
        match_result(rule_map(defs), path) == Ok::<bool, MatchError>(
            contains_all(path, defs[i].skip(1)),
        ),
{
    lemma_last_definition_wins(defs, i);
}

/// A matcher built from `defs` answers `false` for a path whose extension no definition
/// starts with.
pub proof fn lemma_unknown_extension(defs: Seq<Seq<Seq<char>>>, path: Seq<char>, ext: Seq<char>)
    requires
        extension(path) == Some(ext),
        forall|i: int| 0 <= i < defs.len() ==> (#[trigger] defs[i])[0] != ext,
    ensures
        match_result(rule_map(defs), path) == Ok::<bool, MatchError>(false),
{
    lemma_rule_map_domain(defs, ext);
}

/// One empty definition spoils the list, whatever the others are.
pub proof fn lemma_empty_definition_rejected(defs: Seq<Seq<Seq<char>>>, i: int)
    requires
        0 <= i < defs.len(),
        defs[i].len() == 0,
    ensures
        !well_formed(defs),
{
}

/// The rules that a table of strings holds.
spec fn rules_of(table: Map<Seq<char>, Vec<String>>) -> Map<Seq<char>, Seq<Seq<char>>> {
    table.map_values(|tokens: Vec<String>| tokens.deep_view())
}

/// A set of rules, one for each extension it knows.
pub struct FileMatcher(StringHashMap<Vec<String>>);

impl View for FileMatcher {
    type V = Map<Seq<char>, Seq<Seq<char>>>;

    /// The rules, as a map from each extension to its tokens.
    closed spec fn view(&self) -> Self::V {
        rules_of(self.0@)
    }
}

impl FileMatcher {
    /// Builds the matcher that `value` defines, unless one of the definitions is empty.
    ///
    /// The first text of a definition is the extension, without a dot in front. An empty
    /// text is taken as it is; as no path has an empty extension, its rule holds of none.
    pub fn try_from(value: &[&[&str]]) -> (r: Result<FileMatcher, MatchError>)
        ensures
            match r {
                Ok(m) => well_formed(value.deep_view()) && m@ == rule_map(value.deep_view()),
                Err(e) => !well_formed(value.deep_view()) && e == MatchError::Construction(
                    FileMatcherConstructionError::NotEnoughElements,
                ),
            },
    {
        let ghost defs = value.deep_view();
        let mut map: StringHashMap<Vec<String>> = StringHashMap::new();
        let mut i: usize = 0;
        assert(defs.take(0) =~= Seq::empty());
        assert(rules_of(map@) =~= Map::empty());
        while i < value.len()
            invariant
                i <= value.len(),
                defs == value.deep_view(),
                well_formed(defs.take(i as int)),
                rules_of(map@) == rule_map(defs.take(i as int)),
            decreases value.len() - i,
        {
            let list: &[&str] = value[i];
            assert(defs[i as int] == list.deep_view());
            if list.len() == 0 {
                return Err(
                    MatchError::Construction(FileMatcherConstructionError::NotEnoughElements),
                );
            }
            let ext: String = list[0].to_owned();
            let mut tokens: Vec<String> = Vec::new();
            let mut j: usize = 1;
            while j < list.len()
                invariant
                    1 <= j <= list.len(),
                    tokens.deep_view() == list.deep_view().subrange(1, j as int),
                decreases list.len() - j,
            {
                let token: String = list[j].to_owned();
                let ghost before = tokens.deep_view();
                tokens.push(token);
                assert(tokens.deep_view() =~= before.push(list[j as int]@));
                assert(list.deep_view().subrange(1, j + 1) =~= before.push(list[j as int]@));
                j += 1;
            }
            assert(tokens.deep_view() =~= defs[i as int].skip(1));
            let ghost old_rules = rules_of(map@);
            map.insert(ext, tokens);
            proof {
                let next = defs.take(i + 1);
                assert(next.drop_last() =~= defs.take(i as int));
                assert(next.last() == defs[i as int]);
                assert(rules_of(map@) =~= old_rules.insert(
                    defs[i as int][0],
                    defs[i as int].skip(1),
                ));
            }
            i += 1;
        }
        assert(defs.take(i as int) =~= defs);
        Ok(FileMatcher(map))
    }

    /// Tells whether one of the rules holds of `candidate`, a path as text.
    ///
    /// A path without an extension is an error, whatever the rules. That no rule holds
    /// is no error: the answer is `false`. Since `candidate` is text, the answer is never
    /// `CannotConvertToString`.
    pub fn matches(&self, candidate: &str) -> (r: Result<bool, MatchError>)
        ensures
            r == match_result(self@, candidate@),
    {
        let chars = chars_of(candidate);
        let (start, end) = match extension_bounds(&chars) {
            None => { return Err(MatchError::MissingExtension); },
            Some(bounds) => bounds,
        };
        let ext = candidate.substring_char(start, end);
        match self.0.get(ext) {
            None => Ok(false),
            Some(tokens) => {
                let mut k: usize = 0;
                while k < tokens.len()
                    invariant
                        k <= tokens.len(),
                        chars@ == candidate@,
                        extension(candidate@) == Some(ext@),
                        self@.contains_key(ext@),
                        self@[ext@] == tokens.deep_view(),
                        forall|j: int|
                            0 <= j < k ==> is_substring(
                                candidate@,
                                #[trigger] tokens.deep_view()[j],
                            ),
                    decreases tokens.len() - k,
                {
                    let token = chars_of(tokens[k].as_str());
                    assert(self@[ext@][k as int] == token@);
                    if !contains(&chars, &token) {
                        return Ok(false);
                    }
                    k += 1;
                }
                Ok(true)
            },
        }
    }
}

} // verus!
