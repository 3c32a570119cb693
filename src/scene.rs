//! Scenes: a description followed by an ordered list of actions, read from
//! the text of a scene file.

use vstd::prelude::*;
use vstd::slice::slice_subrange;
use crate::action::{action_of, Action, ActionModel, ErrorModel, SceneError};
use crate::grammar::parse_line;
use crate::text::{chars_of, string_of, trim_chars, trimmed};

verus! {

/// What `std::path::Path::with_file_name` makes of `path` and `file`.
pub uninterp spec fn with_file_name(path: Seq<char>, file: Seq<char>) -> Seq<char>;

/// Relies on `std::path::Path::with_file_name`: `path` with its last
/// component replaced by `file`. Both are valid text, so the conversion
/// back to a `String` loses nothing.
#[verifier::external_body]
pub(crate) fn sibling(path: &str, file: &str) -> (r: String)
    ensures
        r@ == with_file_name(path@, file@),
{
    std::path::Path::new(path).with_file_name(file).to_string_lossy().into_owned()
}

/// End of the line that starts at `i`: just past its line break, or the end
/// of the text.
pub open spec fn line_end(t: Seq<char>, i: int) -> int
    decreases t.len() - i,
{
    if 0 <= i < t.len() {
        if t[i] == '\n' {
            i + 1
        } else {
            line_end(t, i + 1)
        }
    } else {
        i
    }
}

/// The line that starts at `i`, trimmed.
pub open spec fn trimmed_line(t: Seq<char>, i: int) -> Seq<char> {
    trimmed(t.subrange(i, line_end(t, i)))
}

/// Start of the first line at or after `i` that is an action line, or the
/// end of the text.
pub open spec fn first_action(t: Seq<char>, i: int) -> int
    decreases t.len() - i,
{
    if 0 <= i < t.len() && i < line_end(t, i) <= t.len() {
        if action_of(trimmed_line(t, i)) is Ok {
            i
        } else {
            first_action(t, line_end(t, i))
        }
    } else {
        t.len() as int
    }
}

/// The actions of the lines from `i` on, skipping blank lines; the first
/// line that is not an action line makes it an error.
pub open spec fn actions_from(t: Seq<char>, i: int) -> Result<Seq<ActionModel>, ErrorModel>
    decreases t.len() - i,
{
    if 0 <= i < t.len() && i < line_end(t, i) <= t.len() {
        let rest = actions_from(t, line_end(t, i));
        if trimmed_line(t, i).len() == 0 {
            rest
        } else {
            match action_of(trimmed_line(t, i)) {
                Err(e) => Err(e),
                Ok(a) => match rest {
                    Ok(r) => Ok(seq![a] + r),
                    Err(e) => Err(e),
                },
            }
        }
    } else {
        Ok(seq![])
    }
}

/// A scene seen as values.
pub struct SceneModel {
    pub location: Seq<char>,
    pub description: Seq<char>,
    pub actions: Seq<ActionModel>,
}

/// The scene that the file at `location` with content `t` holds: the text
/// before the first action line is the description, and every non-blank
/// line from there on is an action.
pub open spec fn scene_of(location: Seq<char>, t: Seq<char>) -> Result<SceneModel, ErrorModel> {
    let d = first_action(t, 0);
    if d < t.len() {
        let first = action_of(trimmed_line(t, d))->Ok_0;
        match actions_from(t, line_end(t, d)) {
            Ok(rest) => Ok(
                SceneModel { location, description: t.subrange(0, d), actions: seq![first] + rest },
            ),
            Err(e) => Err(e),
        }
    } else {
        Ok(SceneModel { location, description: t, actions: seq![] })
    }
}

/// Index of the first action from `i` on that reacts to `input`.
pub open spec fn first_match(actions: Seq<ActionModel>, input: Seq<char>, i: int) -> Option<int>
    decreases actions.len() - i,
{
    if 0 <= i < actions.len() {
        if actions[i].matches(input) {
            Some(i)
        } else {
            first_match(actions, input, i + 1)
        }
    } else {
        None
    }
}

/// The file name of the scene called `name`.
pub open spec fn scene_file(name: Seq<char>) -> Seq<char> {
    name + seq!['.', 's', 'c', 'e', 'n', 'e']
}

fn next_line_end(t: &[char], i: usize) -> (r: usize)
    requires
        i < t@.len(),
    ensures
        i < r <= t@.len(),
        r == line_end(t@, i as int),
{
    let mut j = i;
    while j < t.len() && t[j] != '\n'
        invariant
            i <= j <= t@.len(),
            line_end(t@, j as int) == line_end(t@, i as int),
        decreases t@.len() - j,
    {
        j = j + 1;
    }
    if j < t.len() {
        j + 1
    } else {
        j
    }
}

/// The trimmed line of `t` between `i` and `e`, as text.
fn line_text(t: &[char], i: usize, e: usize) -> (r: String)
    requires
        i <= e <= t@.len(),
    ensures
        r@ == trimmed(t@.subrange(i as int, e as int)),
{
    string_of(trim_chars(slice_subrange(t, i, e)).as_slice())
}

/// One unit of the story: a description and the actions that react to the
/// player's input, in the order of the file.
#[derive(Debug)]
pub struct Scene {
    location: String,
    description: String,
    actions: Vec<Action>,
}

impl View for Scene {
    type V = SceneModel;

    closed spec fn view(&self) -> SceneModel {
        SceneModel {
            location: self.location@,
            description: self.description@,
            actions: self.actions@.map_values(|a: Action| a@),
        }
    }
}

impl Scene {
    /// Builds the scene held by the file at `location`, whose content is `text`.
    pub fn load(location: String, text: &str) -> (r: Result<Scene, SceneError>)
        ensures
            match r {
                Ok(s) => scene_of(location@, text@) == Ok::<SceneModel, ErrorModel>(s@),
                Err(e) => scene_of(location@, text@) == Err::<SceneModel, ErrorModel>(e@),
            },
    {
        let t = chars_of(text);
        let n = t.len();
        let mut i: usize = 0;
        let mut first: Option<Action> = None;
        while first.is_none() && i < n
            invariant
                n == t@.len(),
                t@ == text@,
                i <= n,
                first is None ==> first_action(t@, i as int) == first_action(t@, 0),
                first matches Some(a) ==> i < n && first_action(t@, 0) == i
                    && action_of(trimmed_line(t@, i as int)) == Ok::<ActionModel, ErrorModel>(a@),
            decreases n - i + if first is None { 1int } else { 0int },
        {
            let e = next_line_end(t.as_slice(), i);
            let line = line_text(t.as_slice(), i, e);
            match Action::from(line.as_str()) {
                Ok(a) => {
                    first = Some(a);
                },
                Err(_) => {
                    i = e;
                },
            }
        }
        let d = i;
        let description = string_of(slice_subrange(t.as_slice(), 0, d));
        let mut actions: Vec<Action> = Vec::new();
        match first {
            None => {
                let s = Scene { location, description, actions };
                assert(s@.actions =~= seq![]);
                assert(t@.subrange(0, n as int) =~= t@);
                return Ok(s);
            },
            Some(a) => {
                actions.push(a);
            },
        }
        let ghost first = actions@[0]@;
        let mut i = next_line_end(t.as_slice(), d);
        while i < n
            invariant
                n == t@.len(),
                t@ == text@,
                d < i <= n,
                d == first_action(t@, 0),
                action_of(trimmed_line(t@, d as int)) == Ok::<ActionModel, ErrorModel>(first),
                description@ == t@.subrange(0, d as int),
                actions@.len() >= 1,
                actions@[0]@ == first,
                match actions_from(t@, line_end(t@, d as int)) {
                    Ok(all) => match actions_from(t@, i as int) {
                        Ok(rest) => all == actions@.subrange(1, actions@.len() as int).map_values(
                            |a: Action| a@,
                        ) + rest,
                        Err(_) => false,
                    },
                    Err(e) => actions_from(t@, i as int) == Err::<Seq<ActionModel>, ErrorModel>(e),
                },
            decreases n - i,
        {
            let e = next_line_end(t.as_slice(), i);
            let line = line_text(t.as_slice(), i, e);
            let ghost old_actions = actions@;
            if !line.as_str().is_empty() {
                match Action::from(line.as_str()) {
                    Ok(a) => {
                        actions.push(a);
                    },
                    Err(err) => {
                        assert(actions_from(t@, i as int) == Err::<Seq<ActionModel>, ErrorModel>(err@));
                        return Err(err);
                    },
                }
            }
            proof {
                let old_map = old_actions.subrange(1, old_actions.len() as int).map_values(|a: Action| a@);
                let new_map = actions@.subrange(1, actions@.len() as int).map_values(|a: Action| a@);
                if line@.len() != 0 {
                    assert(new_map =~= old_map.push(actions@.last()@));
                } else {
                    assert(new_map =~= old_map);
                }
                assert(actions_from(t@, i as int) == if trimmed_line(t@, i as int).len() == 0 {
                    actions_from(t@, e as int)
                } else {
                    match actions_from(t@, e as int) {
                        Ok(r) => Ok(seq![actions@.last()@] + r),
                        Err(x) => Err(x),
                    }
                });
                match actions_from(t@, e as int) {
                    Ok(r) => {
                        if line@.len() != 0 {
                            assert(old_map + (seq![actions@.last()@] + r) =~= new_map + r);
                        }
                    },
                    Err(_) => {},
                }
            }
            i = e;
        }
        let s = Scene { location, description, actions };
        proof {
            let m = actions@.subrange(1, actions@.len() as int).map_values(|a: Action| a@);
            assert(s@.actions =~= seq![first] + m);
        }
        Ok(s)
    }

    /// The first action, in file order, that reacts to `input`.
    pub fn get_action(&self, input: &str) -> (r: Option<&Action>)
        ensures
            match first_match(self@.actions, input@, 0) {
                None => r is None,
                Some(i) => r matches Some(a) && a@ == self@.actions[i],
            },
    {
        let n = self.actions.len();
        let mut i: usize = 0;
        while i < n
            invariant
                n == self.actions@.len(),
                i <= n,
                self@.actions == self.actions@.map_values(|a: Action| a@),
                first_match(self@.actions, input@, 0) == first_match(self@.actions, input@, i as int),
            decreases n - i,
        {
            if self.actions[i].is_match(input) {
                return Some(&self.actions[i]);
            }
            i = i + 1;
        }
        None
    }

    /// Where the scene called `name` is found: beside this scene's file.
    pub fn next_location(&self, name: &str) -> (r: String)
        ensures
            r@ == with_file_name(self@.location, scene_file(name@)),
    {
        let mut file = chars_of(name);
        file.push('.');
        file.push('s');
        file.push('c');
        file.push('e');
        file.push('n');
        file.push('e');
        assert(file@ =~= scene_file(name@));
        sibling(self.location.as_str(), string_of(file.as_slice()).as_str())
    }

    /// Builds the scene called `name`, whose file lies beside this scene's
    /// file and holds `text`.
    pub fn load_next(&self, name: &str, text: &str) -> (r: Result<Scene, SceneError>)
        ensures
            match r {
                Ok(s) => scene_of(with_file_name(self@.location, scene_file(name@)), text@)
                    == Ok::<SceneModel, ErrorModel>(s@),
                Err(e) => scene_of(with_file_name(self@.location, scene_file(name@)), text@)
                    == Err::<SceneModel, ErrorModel>(e@),
            },
    {
        Scene::load(self.next_location(name), text)
    }

    /// The text before the first action line, as it stands in the file.
    pub fn description(&self) -> (r: &str)
        ensures
            r@ == self@.description,
    {
        self.description.as_str()
    }

    /// Where this scene's file lies.
    pub fn location(&self) -> (r: &str)
        ensures
            r@ == self@.location,
    {
        self.location.as_str()
    }

    /// The actions of this scene, in file order.
    pub fn actions(&self) -> (r: &[Action])
        ensures
            r@.map_values(|a: Action| a@) == self@.actions,
    {
        self.actions.as_slice()
    }
}

/// `i` is where a line of `t` starts.
pub open spec fn line_start(t: Seq<char>, i: int) -> bool {
    0 <= i < t.len() && (i == 0 || t[i - 1] == '\n')
}

proof fn lemma_line_end(t: Seq<char>, i: int)
    requires
        0 <= i < t.len(),
    ensures
        i < line_end(t, i) <= t.len(),
        line_end(t, i) == t.len() || t[line_end(t, i) - 1] == '\n',
        forall|j: int| i <= j < t.len() && t[j] == '\n' ==> line_end(t, i) <= j + 1,
    decreases t.len() - i,
{
    if t[i] != '\n' {
        if i + 1 < t.len() {
            lemma_line_end(t, i + 1);
        } else {
            assert(line_end(t, i + 1) == i + 1);
        }
    }
}

proof fn lemma_first_match_from(actions: Seq<ActionModel>, input: Seq<char>, s: int, i: int)
    requires
        0 <= s <= i < actions.len(),
        actions[i].matches(input),
    ensures
        first_match(actions, input, s) matches Some(k) && s <= k <= i && actions[k].matches(input),
    decreases i - s,
{
    if !actions[s].matches(input) {
        lemma_first_match_from(actions, input, s + 1, i);
    }
}

/// First match wins: when two actions react to the same input, the lookup
/// never picks the later one, and picks one no later than the earlier one.
pub proof fn lemma_first_match_wins(actions: Seq<ActionModel>, input: Seq<char>, i: int, j: int)
    requires
        0 <= i < j < actions.len(),
        actions[i].matches(input),
        actions[j].matches(input),
    ensures
        first_match(actions, input, 0) matches Some(k) && k <= i && k != j,
{
    lemma_first_match_from(actions, input, 0, i);
}

proof fn lemma_no_action_from(t: Seq<char>, i: int)
    requires
        line_start(t, i),
        forall|s: int| line_start(t, s) ==> !(#[trigger] action_of(trimmed_line(t, s)) is Ok),
    ensures
        first_action(t, i) == t.len(),
    decreases t.len() - i,
{
    lemma_line_end(t, i);
    let e = line_end(t, i);
    assert(!(action_of(trimmed_line(t, i)) is Ok));
    if e < t.len() {
        lemma_no_action_from(t, e);
    } else {
        assert(first_action(t, e) == t.len());
    }
}

/// A scene file without action lines is a scene with no actions, and its
/// whole text is the description.
pub proof fn lemma_no_action_lines(location: Seq<char>, t: Seq<char>)
    requires
        forall|s: int| line_start(t, s) ==> !(#[trigger] action_of(trimmed_line(t, s)) is Ok),
    ensures
        scene_of(location, t) == Ok::<SceneModel, ErrorModel>(
            SceneModel { location, description: t, actions: seq![] },
        ),
{
    if t.len() > 0 {
        lemma_no_action_from(t, 0);
    }
}

proof fn lemma_bad_line_from(t: Seq<char>, s: int, i: int)
    requires
        line_start(t, s),
        line_start(t, i),
        s <= i,
        trimmed_line(t, i).len() != 0,
        parse_line(trimmed_line(t, i)) is None,
        forall|x: int|
            s <= x < i && line_start(t, x) ==> trimmed_line(t, x).len() == 0
                || #[trigger] action_of(trimmed_line(t, x)) is Ok,
    ensures
        actions_from(t, s) == Err::<Seq<ActionModel>, ErrorModel>(
            ErrorModel::InvalidActionLine(trimmed_line(t, i)),
        ),
    decreases i - s,
{
    lemma_line_end(t, s);
    if s < i {
        let e = line_end(t, s);
        assert(t[i - 1] == '\n');
        lemma_bad_line_from(t, e, i);
        assert(trimmed_line(t, s).len() == 0 || action_of(trimmed_line(t, s)) is Ok);
    }
}

/// Once the action block has started, a non-blank line that is not an action
/// line makes the whole scene fail with `InvalidActionLine`, when the
/// non-blank lines before it are all actions.
pub proof fn lemma_bad_action_line(location: Seq<char>, t: Seq<char>, i: int)
    requires
        first_action(t, 0) < i,
        line_start(t, i),
        trimmed_line(t, i).len() != 0,
        parse_line(trimmed_line(t, i)) is None,
        forall|x: int|
            first_action(t, 0) < x < i && line_start(t, x) ==> trimmed_line(t, x).len() == 0
                || #[trigger] action_of(trimmed_line(t, x)) is Ok,
    ensures
        scene_of(location, t) == Err::<SceneModel, ErrorModel>(
            ErrorModel::InvalidActionLine(trimmed_line(t, i)),
        ),
{
    let d = first_action(t, 0);
    lemma_first_action_start(t, 0);
    lemma_line_end(t, d);
    assert(t[i - 1] == '\n');
    lemma_bad_line_from(t, line_end(t, d), i);
}

proof fn lemma_first_action_start(t: Seq<char>, i: int)
    requires
        line_start(t, i),
    ensures
        first_action(t, i) == t.len() || (line_start(t, first_action(t, i)) && first_action(t, i) >= i),
    decreases t.len() - i,
{
    lemma_line_end(t, i);
    let e = line_end(t, i);
    if !(action_of(trimmed_line(t, i)) is Ok) {
        if e < t.len() {
            lemma_first_action_start(t, e);
        } else {
            assert(first_action(t, e) == t.len());
        }
    }
}

} // verus!
