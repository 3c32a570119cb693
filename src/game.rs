//! The decisions of a game session: what one line of player input does in
//! the current scene. The caller reads the input, shows the text and loads
//! the scene files.

use vstd::prelude::*;
use crate::action::{Effect, EffectModel};
use crate::scene::{first_match, Scene, SceneModel};
use crate::text::{chars_of, string_of, trim_chars, trimmed};

verus! {

/// Where a game starts: a scene file, or a directory to search for adventures.
pub struct Config {
    pub scene: String,
}

/// What the caller does after one line of player input.
#[derive(Debug, PartialEq, Eq)]
pub enum Step {
    /// Show this text; the scene stays.
    Say(String),
    /// Go to the scene of this name.
    Enter(String),
    /// Nothing reacts; the scene stays.
    Stay,
}

pub enum StepModel {
    Say(Seq<char>),
    Enter(Seq<char>),
    Stay,
}

impl View for Step {
    type V = StepModel;

    open spec fn view(&self) -> StepModel {
        match self {
            Step::Say(s) => StepModel::Say(s@),
            Step::Enter(s) => StepModel::Enter(s@),
            Step::Stay => StepModel::Stay,
        }
    }
}

/// What `line` does in `scene`: the first action that reacts to the trimmed
/// line decides, and without one nothing happens.
pub open spec fn step_of(scene: SceneModel, line: Seq<char>) -> StepModel {
    match first_match(scene.actions, trimmed(line), 0) {
        None => StepModel::Stay,
        Some(i) => match scene.actions[i].effect {
            EffectModel::Output(s) => StepModel::Say(s),
            EffectModel::Change(n) => StepModel::Enter(n),
        },
    }
}

/// Plays one line of player input in `scene`.
pub fn run(scene: &Scene, line: &str) -> (r: Step)
    ensures
        r@ == step_of(scene@, line@),
{
    let input = string_of(trim_chars(chars_of(line).as_slice()).as_slice());
    match scene.get_action(input.as_str()) {
        None => Step::Stay,
        Some(a) => match a.effect() {
            Effect::Output(s) => Step::Say(s.clone()),
            Effect::Change(n) => Step::Enter(n.clone()),
        },
    }
}

} // verus!
