use tlsn_langchain::payload::{parse_payload, MalformedPayload};

#[test]
fn test_parsing() {
    let messages = vec![
        "{
                \"role\": \"user\",
                \"content\": \"hi im bob! and i live in sf\"
            }",
        "{
                \"role\": \"assistant\",
                \"content\": \"Hi Bob! It's great to meet you. How can I assist you today?\"
            }",
        "{
                \"role\": \"user\",
                \"content\": \"whats the weather where I live?\"
            }",
    ]
    .iter()
    .map(|s| s.to_string())
    .collect::<Vec<String>>();

    let tools: Vec<String> = vec!["
            {
                \"type\": \"function\",
                \"function\": {
                    \"name\": \"tavily_search_results_json\",
                    \"description\": \"A search engine optimized for comprehensive, accurate, and trusted results. Useful for when you need to answer questions about current events. Input should be a search query.\",
                    \"parameters\": {
                        \"properties\": {
                            \"query\": {
                                \"description\": \"search query to look up\",
                                \"type\": \"string\"
                            }
                        },
                        \"required\": [\"query\"],
                        \"type\": \"object\"
                    }
                }
            }
        "]
    .iter()
    .map(|s| s.to_string())
    .collect::<Vec<String>>();

    let parsed_messages: Vec<serde_json::Value> = parse_payload(&messages).unwrap();
    let parsed_tools: Vec<serde_json::Value> = parse_payload(&tools).unwrap();

    assert_eq!(parsed_messages.len(), 3);
    assert_eq!(parsed_tools.len(), 1);

    assert_eq!(
        parsed_messages[1].get("content").and_then(|name| name.as_str()),
        Some("Hi Bob! It's great to meet you. How can I assist you today?")
    );
    assert_eq!(
        parsed_tools[0]
            .get("function")
            .and_then(|func| func.get("name"))
            .and_then(|name| name.as_str()),
        Some("tavily_search_results_json")
    );
}

#[test]
fn values_come_back_in_the_order_of_the_texts() {
    let texts = vec!["1".to_string(), "\"two\"".to_string(), "[3]".to_string(), "null".to_string()];
    let values = parse_payload(&texts).unwrap();
    assert_eq!(values.len(), 4);
    assert_eq!(values[0].as_u64(), Some(1));
    assert_eq!(values[1].as_str(), Some("two"));
    assert_eq!(values[2].as_array().map(|a| a.len()), Some(1));
    assert!(values[3].is_null());
}

#[test]
fn the_first_text_that_is_not_json_is_reported() {
    let texts = vec![
        "{\"role\": \"user\"}".to_string(),
        "{\"role\": ".to_string(),
        "not json either".to_string(),
    ];
    assert_eq!(parse_payload(&texts).unwrap_err(), MalformedPayload { index: 1 });
    let texts = vec!["".to_string()];
    assert_eq!(parse_payload(&texts).unwrap_err(), MalformedPayload { index: 0 });
}

#[test]
fn an_empty_payload_is_fine() {
    assert!(parse_payload(&Vec::new()).unwrap().is_empty());
}
