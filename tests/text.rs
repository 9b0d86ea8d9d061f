use aether::completion::{completion_instructions, completion_script, BASH, FISH, ZSH};
use aether::env::parse_env;
use aether::error::AetherError;
use aether::text::{decimal_string, signed_decimal_string};

fn pairs(v: &[(&str, &str)]) -> Vec<(String, String)> {
    v.iter().map(|(a, b)| (a.to_string(), b.to_string())).collect()
}

#[test]
fn test_load_env_file_parsing() {
    let env = parse_env("KEY1=value1\nKEY2=value2\n# comment\n");
    assert_eq!(env, pairs(&[("KEY1", "value1"), ("KEY2", "value2")]));
    assert_eq!(env.len(), 2);
}

#[test]
fn env_lines_are_trimmed_and_split_at_first_equals() {
    let env = parse_env("  A = x=y \r\n\nno_equals\n   # note\nB=\n=v");
    assert_eq!(env, pairs(&[("A", "x=y"), ("B", ""), ("", "v")]));
    assert!(parse_env("").is_empty());
}

#[test]
fn completion_scripts_by_shell() {
    let (name, script) = completion_script("bash").unwrap();
    assert_eq!(name, "ajj.bash");
    assert_eq!(script, BASH);
    assert!(script.contains("complete -F _ajj_completion ajj"));
    assert_eq!(completion_script("zsh").unwrap(), ("ajj.zsh".to_string(), ZSH.to_string()));
    assert_eq!(completion_script("fish").unwrap(), ("ajj.fish".to_string(), FISH.to_string()));
    assert_eq!(
        completion_script("tcsh").unwrap_err(),
        AetherError::Config("Unsupported shell: tcsh. Supported: bash, zsh, fish".to_string())
    );
    assert_eq!(completion_instructions("bash")[1], "  # Add to ~/.bashrc:");
    assert_eq!(completion_instructions("tcsh").len(), 1);
}

#[test]
fn decimal_rendering() {
    assert_eq!(decimal_string(0), "0");
    assert_eq!(decimal_string(32891), "32891");
    assert_eq!(decimal_string(u64::MAX), "18446744073709551615");
    assert_eq!(signed_decimal_string(-1), "-1");
    assert_eq!(signed_decimal_string(i64::MIN), "-9223372036854775808");
}

#[test]
fn test_generate_bash_completion() {
    let result = completion_script("bash");
    assert!(result.is_ok());
    assert_eq!(result.unwrap().0, "ajj.bash");
}

#[test]
fn test_generate_zsh_completion() {
    let result = completion_script("zsh");
    assert!(result.is_ok());
    assert_eq!(result.unwrap().0, "ajj.zsh");
}

#[test]
fn test_generate_fish_completion() {
    let result = completion_script("fish");
    assert!(result.is_ok());
    assert_eq!(result.unwrap().0, "ajj.fish");
}
