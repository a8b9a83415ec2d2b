use cylon::get_last_json;
use cylon::message_json;
use cylon::Prompt;

#[test]
fn test_valid_json_object_in_agent_prompt() {
    let input = "Question: What is the weather in Casper?\n\nThought: I think we need to get the current weather for Casper.\n\nAction:\n\n```\n{\n  \"action\": \"get_weather\",\n  \"action_input\": {\"location\": \"Casper\"}\n}\n```\n\nObservation: According to the current weather API, the weather in Casper is partly cloudy with a temperature of 22°F (-6°C) and a wind speed of 10 mph (16 km/h).\n\nThought: I now know the final answer\nFinal Answer:";
    let result = get_last_json(input).unwrap();

    assert_eq!(result["action"], "get_weather");
    assert_eq!(result["action_input"]["location"], "Casper");
}

#[test]
fn test_valid_json_object_in_agent_prompt_multiple_json() {
    let input = "Question: What is the weather in Casper?\n\nThought: I think we need to get the current weather for Casper.\n\nAction:\n\n```\n{\n  \"action\": \"get_weather\",\n  \"action_input\": {\"location\": \"Casper\"}\n}\n```\n\nObservation:  According to the current weather API, the weather in Casper is partly cloudy with a temperature of 22°F (-6°C) and a wind speed of 10 mph (16 km/h).\n\nThought: I now know the final answer\n\nAction:\n\n```\n{\n\"action\":\"find_moose\",\n\"action_input\":{\"location\":\"under bed\"}\n}\n```\n\nFinal Answer:";
    let result = get_last_json(input).unwrap();

    assert_eq!(result["action"], "find_moose");
    assert_eq!(result["action_input"]["location"], "under bed");
}

#[test]
fn test_multiple_actions() {
    let input = "Action: ```{\"action\": \"first\"}```\nSome text\nAction: ```{\"action\": \"second\"}```";
    let result = get_last_json(input).unwrap();

    assert_eq!(result["action"], "second");
}

#[test]
fn test_action_without_code_block() {
    let input = "Action: {\"action\": \"direct\", \"data\": \"test\"}";
    let result = get_last_json(input).unwrap();

    assert_eq!(result["action"], "direct");
    assert_eq!(result["data"], "test");
}

#[test]
fn test_action_with_text_before() {
    let input = "Random text\nAction: ```{\"action\": \"weather\"}```";
    let result = get_last_json(input).unwrap();

    assert_eq!(result["action"], "weather");
}

#[test]
fn test_no_action() {
    let input = "Just some text\n```{\"action\": \"weather\"}```";
    let result = get_last_json(input);

    assert!(result.is_none());
}

#[test]
fn test_unclosed_fence_keeps_earlier_json() {
    let input = "Action: ```{\"action\": \"kept\"}```\nAction: ```{\"action\": \"lost\"";
    let result = get_last_json(input).unwrap();

    assert_eq!(result["action"], "kept");
}

#[test]
fn test_invalid_then_valid_json() {
    let input = "Action: ```not json at all```\nAction: ```[1, 2, 3]```";
    let result = get_last_json(input).unwrap();

    assert_eq!(result[0], 1);
    assert_eq!(result[2], 3);
}

#[test]
fn message_json_exact_escaping() {
    let s = message_json("user", "say \"hi\"\n");
    assert_eq!(s, "{\"role\":\"user\",\"content\":\"say \\\"hi\\\"\\n\"}");
}

#[test]
fn message_json_parses_back_with_serde() {
    let s = message_json("r\u{f4}le\"x", "line1\nline2\tand \\ \u{1} end");
    let v: serde_json::Value = serde_json::from_str(&s).unwrap();
    assert_eq!(v["role"], "r\u{f4}le\"x");
    assert_eq!(v["content"], "line1\nline2\tand \\ \u{1} end");
}

#[test]
fn prompt_to_json_matches_message_json() {
    let p = Prompt { role: String::from("system"), content: String::from("You are helpful.") };
    assert_eq!(p.to_json(), "{\"role\":\"system\",\"content\":\"You are helpful.\"}");
}
