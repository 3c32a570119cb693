//! Actions: a compiled matcher paired with an effect, built from one
//! action line.

use vstd::prelude::*;
use vstd::slice::slice_subrange;
use regex::Regex;
use crate::grammar::{find_split, word_end_of, last_split, lemma_last_split_unique, parse_line, parts_at, word_end, LineParts};
use crate::text::{chars_of, string_of};

verus! {

#[verifier::external_type_specification]
#[verifier::external_body]
pub struct ExRegex(regex::Regex);

#[verifier::external_type_specification]
#[verifier::external_body]
pub struct ExRegexError(regex::Error);

/// Whether `pattern` compiles as a regular expression.
pub uninterp spec fn regex_valid(pattern: Seq<char>) -> bool;

/// Whether the regular expression `pattern` matches somewhere in `text`.
pub uninterp spec fn regex_match(pattern: Seq<char>, text: Seq<char>) -> bool;

/// `text` with every regular-expression meta character escaped.
pub uninterp spec fn regex_escaped(text: Seq<char>) -> Seq<char>;

/// Relies on `regex::Regex::new`, which fails exactly when `pattern` is not a
/// valid expression under the default limits.
#[verifier::external_body]
fn compile(pattern: &str) -> (r: Result<Regex, regex::Error>)
    ensures
        r is Ok == regex_valid(pattern@),
{
    Regex::new(pattern)
}

/// Relies on `regex::escape`, whose result is a literal expression: anchored
/// with `^` and `$` it matches `text` and nothing else.
#[verifier::external_body]
fn escape(text: &str) -> (r: String)
    ensures
        r@ == regex_escaped(text@),
        forall|t: Seq<char>|
            #[trigger] regex_match(seq!['^'] + r@ + seq!['$'], t) == (t == text@),
{
    regex::escape(text)
}

/// Relies on `regex::Regex::is_match` on the action's expression, which was
/// compiled from the action's source text and is never changed.
#[verifier::external_body]
fn expression_matches(a: &Action, text: &str) -> (r: bool)
    ensures
        r == regex_match(a@.source, text@),
{
    a.expression.is_match(text)
}

/// What happens when an action is triggered.
#[derive(Debug, PartialEq, Eq)]
pub enum Effect {
    /// Text shown to the player.
    Output(String),
    /// Name of the scene to go to, without its file extension.
    Change(String),
}

pub enum EffectModel {
    Output(Seq<char>),
    Change(Seq<char>),
}

impl View for Effect {
    type V = EffectModel;

    open spec fn view(&self) -> EffectModel {
        match self {
            Effect::Output(s) => EffectModel::Output(s@),
            Effect::Change(s) => EffectModel::Change(s@),
        }
    }
}

/// Why a scene or an action could not be built.
#[derive(Debug, PartialEq, Eq)]
pub enum SceneError {
    /// A scene file could not be read.
    Io(String),
    /// A line of the action block is not an action line.
    InvalidActionLine(String),
    /// The pattern of an action line is not a valid regular expression.
    InvalidPattern(String),
}

pub enum ErrorModel {
    Io(Seq<char>),
    InvalidActionLine(Seq<char>),
    InvalidPattern(Seq<char>),
}

impl View for SceneError {
    type V = ErrorModel;

    open spec fn view(&self) -> ErrorModel {
        match self {
            SceneError::Io(s) => ErrorModel::Io(s@),
            SceneError::InvalidActionLine(s) => ErrorModel::InvalidActionLine(s@),
            SceneError::InvalidPattern(s) => ErrorModel::InvalidPattern(s@),
        }
    }
}

/// An action seen as values: the text of its regular expression and its effect.
pub struct ActionModel {
    pub source: Seq<char>,
    pub effect: EffectModel,
}

impl ActionModel {
    /// Whether the action reacts to `input`.
    pub open spec fn matches(self, input: Seq<char>) -> bool {
        regex_match(self.source, input)
    }
}

pub open spec fn is_keyword_kind(kind: Seq<char>) -> bool {
    kind == seq!['k', 'w']
}

pub open spec fn is_scene_verb(verb: Seq<char>) -> bool {
    verb == seq!['s', 'c', 'e', 'n', 'e']
}

/// The expression text of an action line: its pattern escaped and anchored at
/// both ends for a keyword, the pattern itself otherwise.
pub open spec fn expression_source(parts: LineParts) -> Seq<char> {
    if is_keyword_kind(parts.kind) {
        seq!['^'] + regex_escaped(parts.pattern) + seq!['$']
    } else {
        parts.pattern
    }
}

pub open spec fn effect_of(parts: LineParts) -> EffectModel {
    if is_scene_verb(parts.verb) {
        EffectModel::Change(parts.argument)
    } else {
        EffectModel::Output(parts.argument)
    }
}

/// The action that `line` describes, or why it describes none.
pub open spec fn action_of(line: Seq<char>) -> Result<ActionModel, ErrorModel> {
    match parse_line(line) {
        None => Err(ErrorModel::InvalidActionLine(line)),
        Some(parts) => if regex_valid(expression_source(parts)) {
            Ok(ActionModel { source: expression_source(parts), effect: effect_of(parts) })
        } else {
            Err(ErrorModel::InvalidPattern(parts.pattern))
        },
    }
}

/// A rule of a scene: input that its expression matches triggers its effect.
#[derive(Debug)]
pub struct Action {
    expression: Regex,
    source: String,
    effect: Effect,
}

impl View for Action {
    type V = ActionModel;

    closed spec fn view(&self) -> ActionModel {
        ActionModel { source: self.source@, effect: self.effect@ }
    }
}

impl Action {
    /// Parses one action line, `!<kind>:<pattern> -> <verb> <argument>`.
    pub fn from(line: &str) -> (r: Result<Action, SceneError>)
        ensures
            match r {
                Ok(a) => action_of(line@) == Ok::<ActionModel, ErrorModel>(a@),
                Err(e) => action_of(line@) == Err::<ActionModel, ErrorModel>(e@),
            },
            r matches Ok(a) ==> parse_line(line@) matches Some(parts) && (is_keyword_kind(parts.kind)
                ==> forall|t: Seq<char>| #[trigger] a@.matches(t) == (t == parts.pattern)),
    {
        let cs = chars_of(line);
        let found = find_split(cs.as_slice());
        proof {
            if found is None {
                assert(!exists|p: int| last_split(cs@, p));
            }
        }
        let p = match found {
            None => {
                return Err(SceneError::InvalidActionLine(line.to_owned()));
            },
            Some(p) => p,
        };
        let ghost parts = parts_at(cs@, p as int);
        proof {
            assert forall|q: int| last_split(cs@, q) implies q == p as int by {
                lemma_last_split_unique(cs@, p as int, q);
            }
            assert(parse_line(line@) == Some(parts));
            assert(crate::grammar::split_at(cs@, p as int));
            assert(crate::grammar::tail_at(cs@, p as int));
        }
        let n = cs.len();
        let k = word_end_of(cs.as_slice(), 1);
        let v = word_end_of(cs.as_slice(), p + 4);
        let kind = slice_subrange(cs.as_slice(), 1, k);
        let pattern = string_of(slice_subrange(cs.as_slice(), k + 1, p));
        let verb = slice_subrange(cs.as_slice(), p + 4, v);
        let argument = string_of(slice_subrange(cs.as_slice(), v + 1, n));
        assert(kind@ == parts.kind);
        assert(verb@ == parts.verb);
        let keyword = kind.len() == 2 && kind[0] == 'k' && kind[1] == 'w';
        assert(keyword == is_keyword_kind(parts.kind)) by {
            if keyword {
                assert(kind@ =~= seq!['k', 'w']);
            }
        }
        let source = if keyword {
            let escaped = chars_of(&escape(&pattern));
            let mut anchored: Vec<char> = Vec::new();
            anchored.push('^');
            let mut i: usize = 0;
            while i < escaped.len()
                invariant
                    0 <= i <= escaped@.len(),
                    anchored@ == seq!['^'] + escaped@.subrange(0, i as int),
                decreases escaped@.len() - i,
            {
                anchored.push(escaped[i]);
                i = i + 1;
                assert(anchored@ =~= seq!['^'] + escaped@.subrange(0, i as int));
            }
            anchored.push('$');
            assert(anchored@ =~= seq!['^'] + escaped@ + seq!['$']);
            string_of(anchored.as_slice())
        } else {
            pattern.clone()
        };
        assert(source@ == expression_source(parts));
        let scene = verb.len() == 5 && verb[0] == 's' && verb[1] == 'c' && verb[2] == 'e'
            && verb[3] == 'n' && verb[4] == 'e';
        assert(scene == is_scene_verb(parts.verb)) by {
            if scene {
                assert(verb@ =~= seq!['s', 'c', 'e', 'n', 'e']);
            }
        }
        let effect = if scene {
            Effect::Change(argument)
        } else {
            Effect::Output(argument)
        };
        match compile(source.as_str()) {
            Ok(expression) => Ok(Action { expression, source, effect }),
            Err(_) => Err(SceneError::InvalidPattern(pattern)),
        }
    }

    /// The effect that this action triggers.
    pub fn effect(&self) -> (r: &Effect)
        ensures
            r@ == self@.effect,
    {
        &self.effect
    }

    /// The text of the regular expression that this action matches with.
    pub fn expression(&self) -> (r: &str)
        ensures
            r@ == self@.source,
    {
        self.source.as_str()
    }

    /// Whether this action reacts to `input`.
    pub fn is_match(&self, input: &str) -> (r: bool)
        ensures
            r == self@.matches(input@),
    {
        expression_matches(self, input)
    }
}

/// Parsing is a function of the text: two actions parsed from one line
/// have the same expression and effect, and so react to the same input.
pub proof fn lemma_parse_repeatable(line: Seq<char>, a: ActionModel, b: ActionModel)
    requires
        action_of(line) == Ok::<ActionModel, ErrorModel>(a),
        action_of(line) == Ok::<ActionModel, ErrorModel>(b),
    ensures
        a == b,
        forall|t: Seq<char>| #[trigger] a.matches(t) == b.matches(t),
{
}

/// A pattern action uses its pattern as the regular expression, unchanged
/// and unanchored.
pub proof fn lemma_pattern_verbatim(line: Seq<char>, a: ActionModel)
    requires
        action_of(line) == Ok::<ActionModel, ErrorModel>(a),
        parse_line(line) matches Some(parts) && !is_keyword_kind(parts.kind),
    ensures
        a.source == parse_line(line)->Some_0.pattern,
        forall|t: Seq<char>| #[trigger] a.matches(t) == regex_match(parse_line(line)->Some_0.pattern, t),
{
}

/// An action line whose pattern is not a valid regular expression, when its
/// kind is not `kw`, is rejected with `InvalidPattern`.
pub proof fn lemma_invalid_pattern(line: Seq<char>)
    requires
        parse_line(line) matches Some(parts) && !is_keyword_kind(parts.kind) && !regex_valid(parts.pattern),
    ensures
        action_of(line) == Err::<ActionModel, ErrorModel>(ErrorModel::InvalidPattern(parse_line(line)->Some_0.pattern)),
{
}

} // verus!
