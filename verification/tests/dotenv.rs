use session_relay::dotenv::{collect_chars, env_file, load_env, DEVELOPMENT_FILE, PRODUCTION_FILE};
use session_relay::error::ConfigError;

fn pairs(list: &[(&str, &str)]) -> Vec<(String, String)> {
    list.iter().map(|(k, v)| (k.to_string(), v.to_string())).collect()
}

#[test]
fn env_file_follows_the_build() {
    assert_eq!(env_file(true), ".env.development");
    assert_eq!(env_file(false), ".env.production");
    assert_eq!(DEVELOPMENT_FILE, ".env.development");
    assert_eq!(PRODUCTION_FILE, ".env.production");
}

#[test]
fn collect_chars_keeps_every_character() {
    assert_eq!(collect_chars(""), Vec::<char>::new());
    assert_eq!(collect_chars("a=ß\n"), vec!['a', '=', 'ß', '\n']);
}

#[test]
fn load_env_reads_one_variable_per_line() {
    let text = "CLIENT_ORIGIN=http://localhost:5173\nSERVER_PORT=3000\nNAMESPACE_LEN=7\n";
    assert_eq!(
        load_env(text),
        Ok(pairs(&[
            ("CLIENT_ORIGIN", "http://localhost:5173"),
            ("SERVER_PORT", "3000"),
            ("NAMESPACE_LEN", "7"),
        ]))
    );
}

#[test]
fn load_env_of_nothing_is_nothing() {
    assert_eq!(load_env(""), Ok(Vec::new()));
}

#[test]
fn load_env_needs_no_final_line_ending() {
    assert_eq!(load_env("A=1\nB=2"), Ok(pairs(&[("A", "1"), ("B", "2")])));
    assert_eq!(load_env("A=1"), Ok(pairs(&[("A", "1")])));
}

#[test]
fn load_env_takes_carriage_return_line_feed_as_one_ending() {
    assert_eq!(load_env("A=1\r\nB=2\r\n"), Ok(pairs(&[("A", "1"), ("B", "2")])));
    // Only one carriage return belongs to the ending.
    assert_eq!(load_env("A=1\r\r\n"), Ok(pairs(&[("A", "1\r")])));
    // Without a line feed after it, a carriage return is part of the value.
    assert_eq!(load_env("A=1\r"), Ok(pairs(&[("A", "1\r")])));
}

#[test]
fn load_env_cuts_the_value_at_a_second_equals_sign() {
    assert_eq!(load_env("A=b=c\n"), Ok(pairs(&[("A", "b")])));
    assert_eq!(load_env("A==c\n"), Ok(pairs(&[("A", "")])));
    assert_eq!(load_env("A=\n"), Ok(pairs(&[("A", "")])));
}

#[test]
fn load_env_keeps_spaces_and_other_scripts() {
    assert_eq!(
        load_env(" KEY = some value \nGRÜSSE=žluťoučký=x\n"),
        Ok(pairs(&[(" KEY ", " some value "), ("GRÜSSE", "žluťoučký")]))
    );
}

#[test]
fn load_env_names_the_first_malformed_line() {
    assert_eq!(load_env("no equals sign"), Err(ConfigError::MalformedLine(0)));
    assert_eq!(load_env("A=1\nB\nC"), Err(ConfigError::MalformedLine(1)));
    assert_eq!(load_env("A=1\nB=2\n\n"), Err(ConfigError::MalformedLine(2)));
    assert_eq!(load_env("\n"), Err(ConfigError::MalformedLine(0)));
    assert_eq!(load_env("A=1\n\r\nB=2"), Err(ConfigError::MalformedLine(1)));
}

#[test]
fn load_env_refuses_what_cannot_be_set() {
    assert_eq!(load_env("=value\n"), Err(ConfigError::MalformedLine(0)));
    assert_eq!(load_env("A=1\nB\0=2\n"), Err(ConfigError::MalformedLine(1)));
    assert_eq!(load_env("A=1\nB=2\nC=\0\n"), Err(ConfigError::MalformedLine(2)));
    // What follows the second equals sign is dropped, a NUL there too.
    assert_eq!(load_env("A=1=\0\n"), Ok(pairs(&[("A", "1")])));
}
