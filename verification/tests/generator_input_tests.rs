use simon_says_seeq_rust::generator_input::{console_command, script_command, utility_command, GeneratorInput};

#[test]
fn script_words() {
    assert_eq!(script_command("q"), GeneratorInput::Quit);
    assert_eq!(script_command("quit"), GeneratorInput::Quit);
    assert_eq!(script_command("exit"), GeneratorInput::Quit);
    assert_eq!(script_command("s"), GeneratorInput::StartStop);
    assert_eq!(script_command("start"), GeneratorInput::StartStop);
    assert_eq!(script_command("status"), GeneratorInput::ShowStatus);
    assert_eq!(script_command("h"), GeneratorInput::ShowHelp);
    assert_eq!(script_command("help"), GeneratorInput::ShowHelp);
    assert_eq!(script_command("Q"), GeneratorInput::Other);
    assert_eq!(script_command("stop"), GeneratorInput::Other);
}

#[test]
fn script_tempo_letters() {
    assert_eq!(script_command("u"), GeneratorInput::RaiseBpm(1));
    assert_eq!(script_command("uu"), GeneratorInput::RaiseBpm(10));
    assert_eq!(script_command("uuu"), GeneratorInput::RaiseBpm(50));
    assert_eq!(script_command("uuuu"), GeneratorInput::Other);
    assert_eq!(script_command("d"), GeneratorInput::LowerBpm(1));
    assert_eq!(script_command("dd"), GeneratorInput::LowerBpm(10));
    assert_eq!(script_command("ddd"), GeneratorInput::LowerBpm(50));
    assert_eq!(script_command("ud"), GeneratorInput::Other);
    assert_eq!(script_command("128.5"), GeneratorInput::Other);
    assert_eq!(script_command(""), GeneratorInput::Other);
}

#[test]
fn console_lines_are_trimmed() {
    assert_eq!(console_command("   \n"), GeneratorInput::Blank);
    assert_eq!(console_command(""), GeneratorInput::Blank);
    assert_eq!(console_command("s\n"), GeneratorInput::StartStop);
    assert_eq!(console_command(" S "), GeneratorInput::StartStop);
    assert_eq!(console_command("t\n"), GeneratorInput::ToggleTestMode);
    assert_eq!(console_command("T"), GeneratorInput::ToggleTestMode);
    assert_eq!(console_command("Q\n"), GeneratorInput::Quit);
    assert_eq!(console_command("H"), GeneratorInput::ShowHelp);
    assert_eq!(console_command("uu\n"), GeneratorInput::RaiseBpm(10));
    assert_eq!(console_command("ddd\r\n"), GeneratorInput::LowerBpm(50));
    assert_eq!(console_command("quit\n"), GeneratorInput::Other);
    assert_eq!(console_command("status"), GeneratorInput::Other);
}

#[test]
fn utility_words() {
    assert_eq!(utility_command("exit"), GeneratorInput::Quit);
    assert_eq!(utility_command("start"), GeneratorInput::StartStop);
    assert_eq!(utility_command("+"), GeneratorInput::RaiseBpm(5));
    assert_eq!(utility_command("-"), GeneratorInput::LowerBpm(5));
    assert_eq!(utility_command("++"), GeneratorInput::RaiseBpm(1));
    assert_eq!(utility_command("--"), GeneratorInput::LowerBpm(1));
    assert_eq!(utility_command("+++"), GeneratorInput::Other);
    assert_eq!(utility_command("+-"), GeneratorInput::Other);
    assert_eq!(utility_command("status"), GeneratorInput::ShowStatus);
    assert_eq!(utility_command("help"), GeneratorInput::ShowHelp);
    assert_eq!(utility_command("u"), GeneratorInput::Other);
}
