use rustventure::action::{Action, Effect, SceneError};
use rustventure::adventure::{select, Adventure};
use rustventure::game::{run, Step};
use rustventure::scene::Scene;

const KITTEN_LOCATION: &str = "/adventures/kitten/kitten.scene";

const KITTEN: &str = "There's a little kitten in front of you!
!kw:meow -> print \"Meow!\" =^.^=
!kw:hug -> scene cuddle_cat
";

const CUDDLE_CAT: &str = "*purr*
There's a kitten purring in your arms!
!kw:pet -> print *purr, purr*
!re:^((set )?down|release)$ -> scene kitten
";

fn scene_text(location: &str) -> &'static str {
    match location {
        "/adventures/kitten/kitten.scene" => KITTEN,
        "/adventures/kitten/cuddle_cat.scene" => CUDDLE_CAT,
        other => panic!("no scene file at {}", other),
    }
}

fn kitten_scene() -> Scene {
    Scene::load(KITTEN_LOCATION.to_string(), KITTEN).unwrap()
}

/// Plays `input` from the scene at `location`, the way the program does,
/// and returns everything it writes.
fn play(location: &str, input: &str) -> String {
    let mut scene = Scene::load(location.to_string(), scene_text(location)).unwrap();
    let mut output = String::new();
    output.push_str(scene.description());
    let mut lines = input.split_inclusive('\n');
    loop {
        output.push_str("> ");
        let line = match lines.next() {
            Some(l) => l,
            None => {
                output.push('\n');
                break;
            }
        };
        match run(&scene, line) {
            Step::Say(s) => {
                output.push_str(&s);
                output.push('\n');
            }
            Step::Enter(name) => {
                let next = scene.next_location(&name);
                scene = scene.load_next(&name, scene_text(&next)).unwrap();
                output.push_str(scene.description());
            }
            Step::Stay => {}
        }
    }
    output
}

#[test]
fn kitten() {
    let output = play(KITTEN_LOCATION, "meow\nhug\npet");
    assert_eq!(
        vec![
            "There's a little kitten in front of you!",
            "> \"Meow!\" =^.^=",
            "> *purr*",
            "There's a kitten purring in your arms!",
            "> *purr, purr*",
            "> ",
        ],
        output.lines().collect::<Vec<&str>>()
    );
}

#[test]
fn parse_action() {
    let a = Action::from("!kw:meow -> print \"Meow!\" =^.^=").unwrap();
    assert_eq!(a.effect(), &Effect::Output("\"Meow!\" =^.^=".to_string()));
    assert_eq!(a.expression(), r"^meow$");
    assert!(a.is_match("meow"));
}

#[test]
fn load_invalid_action() {
    assert_eq!(
        Action::from("Meow, I'm a little kitten!").unwrap_err(),
        SceneError::InvalidActionLine("Meow, I'm a little kitten!".to_string())
    );
}

#[test]
fn load_scene() {
    let s = kitten_scene();
    assert_eq!(
        s.description().trim(),
        "There's a little kitten in front of you!"
    );
    assert!(s.get_action("bark").is_none());
    assert_eq!(
        s.get_action("meow").unwrap().effect(),
        &Effect::Output("\"Meow!\" =^.^=".to_string())
    );
    assert_eq!(
        s.get_action("hug").unwrap().effect(),
        &Effect::Change("cuddle_cat".to_string())
    );
}

#[test]
fn change_scene() {
    let mut s = kitten_scene();
    let a = s.get_action("hug").unwrap();
    assert_eq!(a.effect(), &Effect::Change("cuddle_cat".to_string()));
    match a.effect() {
        Effect::Change(t) => {
            let next = s.next_location(t);
            s = s.load_next(t, scene_text(&next)).unwrap()
        }
        _ => panic!("unexpected effect"),
    }
    assert_eq!(
        s.description().trim(),
        "*purr*\nThere's a kitten purring in your arms!"
    );
    assert_eq!(
        s.get_action("pet").unwrap().effect(),
        &Effect::Output("*purr, purr*".to_string())
    );
    assert_eq!(
        s.get_action("down").unwrap().effect(),
        &Effect::Change("kitten".to_string())
    );
    assert_eq!(
        s.get_action("set down").unwrap().effect(),
        &Effect::Change("kitten".to_string())
    );
    assert_eq!(
        s.get_action("release").unwrap().effect(),
        &Effect::Change("kitten".to_string())
    );
}

#[test]
fn kitten_round_trip() {
    let s = kitten_scene();
    assert_eq!(s.description(), "There's a little kitten in front of you!\n");
    assert_eq!(s.actions().len(), 2);
    assert!(s.get_action("bark").is_none());
    assert_eq!(
        s.next_location("cuddle_cat"),
        "/adventures/kitten/cuddle_cat.scene"
    );
    let next = s.load_next("cuddle_cat", CUDDLE_CAT).unwrap();
    assert_eq!(next.location(), "/adventures/kitten/cuddle_cat.scene");
    assert_eq!(
        next.description(),
        "*purr*\nThere's a kitten purring in your arms!\n"
    );
    assert_eq!(
        next.get_action("pet").unwrap().effect(),
        &Effect::Output("*purr, purr*".to_string())
    );
}

#[test]
fn keyword_matches_exact_input_only() {
    let a = Action::from("!kw:meow -> print X").unwrap();
    assert!(a.is_match("meow"));
    assert!(!a.is_match("meows"));
    assert!(!a.is_match(" meow "));
    assert!(!a.is_match("a meow"));
}

#[test]
fn keyword_escapes_meta_characters() {
    let a = Action::from("!kw:a.b -> print X").unwrap();
    assert_eq!(a.expression(), r"^a\.b$");
    assert!(a.is_match("a.b"));
    assert!(!a.is_match("axb"));
}

#[test]
fn input_is_trimmed_before_matching() {
    let s = kitten_scene();
    assert!(s.get_action(" meow ").is_none());
    assert_eq!(
        run(&s, "  meow \r\n"),
        Step::Say("\"Meow!\" =^.^=".to_string())
    );
    assert_eq!(run(&s, "hug\n"), Step::Enter("cuddle_cat".to_string()));
    assert_eq!(run(&s, "bark\n"), Step::Stay);
}

#[test]
fn pattern_is_unanchored() {
    let a = Action::from("!re:ow -> print X").unwrap();
    assert_eq!(a.expression(), "ow");
    assert!(a.is_match("meow"));
    assert!(a.is_match("owl"));
    assert!(!a.is_match("o w"));
    let b = Action::from("!re:^ow$ -> print X").unwrap();
    assert!(!b.is_match("meow"));
    assert!(b.is_match("ow"));
}

#[test]
fn first_match_wins() {
    let text = "Two rules.\n!re:m -> print first\n!kw:meow -> print second\n";
    let s = Scene::load("two.scene".to_string(), text).unwrap();
    assert_eq!(
        s.get_action("meow").unwrap().effect(),
        &Effect::Output("first".to_string())
    );
}

#[test]
fn reparsing_gives_the_same_action() {
    let line = "!re:^(set )?down$ -> scene kitten";
    let a = Action::from(line).unwrap();
    let b = Action::from(line).unwrap();
    assert_eq!(a.expression(), b.expression());
    assert_eq!(a.effect(), b.effect());
    assert_eq!(a.is_match("set down"), b.is_match("set down"));
}

#[test]
fn scene_without_actions() {
    let text = "Nothing to do here.\n\n  Really nothing.\n";
    let s = Scene::load("end.scene".to_string(), text).unwrap();
    assert_eq!(s.description(), text);
    assert_eq!(s.actions().len(), 0);
    assert!(s.get_action("anything").is_none());
    let empty = Scene::load("empty.scene".to_string(), "").unwrap();
    assert_eq!(empty.description(), "");
    assert_eq!(empty.actions().len(), 0);
}

#[test]
fn invalid_line_in_action_block() {
    let text = "A room.\n!kw:look -> print A room.\n\nthis is not an action\n!kw:go -> scene hall\n";
    assert_eq!(
        Scene::load("room.scene".to_string(), text).unwrap_err(),
        SceneError::InvalidActionLine("this is not an action".to_string())
    );
}

#[test]
fn blank_lines_in_action_block_are_skipped() {
    let text = "A room.\r\n\r\n!kw:look -> print A room.\r\n\r\n   \n!kw:go -> scene hall";
    let s = Scene::load("room.scene".to_string(), text).unwrap();
    assert_eq!(s.description(), "A room.\r\n\r\n");
    assert_eq!(s.actions().len(), 2);
    assert_eq!(
        s.get_action("go").unwrap().effect(),
        &Effect::Change("hall".to_string())
    );
}

#[test]
fn invalid_pattern() {
    assert_eq!(
        Action::from("!re:(meow -> print X").unwrap_err(),
        SceneError::InvalidPattern("(meow".to_string())
    );
    let text = "A room.\n!kw:look -> print A room.\n!re:[ -> print X\n";
    assert_eq!(
        Scene::load("room.scene".to_string(), text).unwrap_err(),
        SceneError::InvalidPattern("[".to_string())
    );
}

#[test]
fn invalid_pattern_in_description_is_text() {
    let text = "!re:( -> print X\n!kw:look -> print A room.\n";
    let s = Scene::load("room.scene".to_string(), text).unwrap();
    assert_eq!(s.description(), "!re:( -> print X\n");
    assert_eq!(s.actions().len(), 1);
}

#[test]
fn separator_is_the_last_arrow() {
    let a = Action::from("!re:a -> b -> print X").unwrap();
    assert_eq!(a.expression(), "a -> b");
    assert_eq!(a.effect(), &Effect::Output("X".to_string()));
    let b = Action::from("!kw:go\t->\tscene   far away").unwrap();
    assert_eq!(b.expression(), "^go$");
    assert_eq!(b.effect(), &Effect::Change("  far away".to_string()));
}

#[test]
fn malformed_lines() {
    for line in [
        "",
        "!",
        "!kw",
        "!:meow -> print X",
        "kw:meow -> print X",
        "!kw:meow -> print",
        "!kw:meow ->print X",
        "!kw:me\now -> print X",
        "!k-w:meow -> print X",
    ] {
        assert_eq!(
            Action::from(line).unwrap_err(),
            SceneError::InvalidActionLine(line.to_string())
        );
    }
}

#[test]
fn load_adventure() {
    let about = Adventure::from_fields(
        "/adventures/kitten/about.yaml",
        Some("A cuddly kitten".to_string()),
        Some("Fiona".to_string()),
        Some("1.0".to_string()),
        Some("kitten.scene".to_string()),
    )
    .unwrap();
    assert_eq!(
        about,
        Adventure::new(
            "A cuddly kitten".to_string(),
            "Fiona".to_string(),
            Some("1.0".to_string()),
            KITTEN_LOCATION.to_string(),
        )
    );
    assert_eq!(about.title(), "\"A cuddly kitten\" by Fiona (version 1.0)");
    let scene = Scene::load(about.start().to_string(), scene_text(about.start())).unwrap();
    assert_eq!(
        scene.description().trim(),
        "There's a little kitten in front of you!"
    );
}

#[test]
fn format_partial() {
    let about = Adventure::new(
        "Test Adventure".to_string(),
        "Me".to_string(),
        None,
        "test.scene".to_string(),
    );
    assert_eq!(about.title(), "\"Test Adventure\" by Me");
}

#[test]
fn adventure_fields() {
    let a = Adventure::from_fields("/a/about.yml", Some("N".to_string()), Some("A".to_string()), None, None)
        .unwrap();
    assert_eq!(a.start(), "/a/start.scene");
    assert_eq!(
        Adventure::from_fields("/a/about.yml", None, Some("A".to_string()), None, None).unwrap_err(),
        "missing name"
    );
    assert_eq!(
        Adventure::from_fields("/a/about.yml", Some("N".to_string()), None, None, None).unwrap_err(),
        "missing author"
    );
}

#[test]
fn adventure_selection() {
    assert_eq!(select("1\n", 3), Some(0));
    assert_eq!(select("  3 \r\n", 3), Some(2));
    assert_eq!(select("+2", 3), Some(1));
    assert_eq!(select("0", 3), None);
    assert_eq!(select("4", 3), None);
    assert_eq!(select("", 3), None);
    assert_eq!(select("+", 3), None);
    assert_eq!(select("2x", 3), None);
    assert_eq!(select("-1", 3), None);
    assert_eq!(select("99999999999999999999999999", 3), None);
    assert_eq!(select("007", 10), Some(6));
}
