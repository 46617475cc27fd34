use ecodex::injection::{bounded_skill_prompt_contents, truncation_warning, InjectedHostSkillPrompts};

#[test]
fn recorded_paths_are_found_as_given_or_normalized() {
    let mut x = InjectedHostSkillPrompts::default();
    assert!(x.is_empty());
    assert!(!x.contains_path("skills/a/SKILL.md"));
    x.insert_path("skills/a/SKILL.md");
    assert!(!x.is_empty());
    assert!(x.contains_path("skills/a/SKILL.md"));
    x.insert_path("skills/b/SKILL.md");
    assert!(x.contains_path("skills/a/SKILL.md"));
    assert!(x.contains_path("skills/b/SKILL.md"));
    assert!(!x.contains_path("skills/c/SKILL.md"));
    x.insert_path("skill://skills\\d\\SKILL.md");
    assert!(x.contains_path("skills/d/SKILL.md"));
    assert!(x.contains_path("skill://skills/d/SKILL.md"));
}

#[test]
fn skill_bodies_are_cut_at_a_char_boundary() {
    assert_eq!(bounded_skill_prompt_contents("hello", 10), ("hello".to_string(), false));
    assert_eq!(bounded_skill_prompt_contents("hello", 5), ("hello".to_string(), false));
    assert_eq!(bounded_skill_prompt_contents("hello", 3), ("hel".to_string(), true));
    // "é" takes two bytes: a limit inside it stops before it.
    assert_eq!(bounded_skill_prompt_contents("aé", 2), ("a".to_string(), true));
    assert_eq!(bounded_skill_prompt_contents("aé", 3), ("aé".to_string(), false));
    assert_eq!(bounded_skill_prompt_contents("😀x", 3), (String::new(), true));
    assert_eq!(
        truncation_warning("audit"),
        "Skill `audit` exceeded the main prompt context limit and was truncated."
    );
}
