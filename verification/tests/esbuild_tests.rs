use react_transform::esbuild::{PartialLocation, PartialMessage, PartialNote};

#[test]
fn partial_message_shapes_compose() {
    let location = PartialLocation {
        file: Some("test".to_string()),
        namespace: Some("test".to_string()),
        line: Some(1),
        column: Some(0),
        length: Some(1),
        line_text: Some("test".to_string()),
        suggestion: Some("test".to_string()),
    };
    let msg = PartialMessage {
        id: None,
        plugin_name: Some("test".to_string()),
        text: Some("text".to_string()),
        location: Some(location.clone()),
        notes: Some(vec![PartialNote { text: Some("note".to_string()), location: Some(location.clone()) }]),
        detail: Some("detail".to_string()),
    };
    assert_eq!(msg.plugin_name, Some("test".to_string()));
    assert_eq!(msg.location.as_ref().unwrap().line, Some(1));
    assert_eq!(msg.notes.unwrap()[0].text, Some("note".to_string()));
    assert_eq!(location, location.clone());
}
