use edit_prediction::prediction::{
    edit_prediction_from_current_prediction, AnchoredEdit, CurrentExternalPrediction,
    EditPrediction,
};

type Current = CurrentExternalPrediction<u8, String, u32, String>;

#[test]
fn test_external_jump_preserves_should_retrigger() {
    let snapshot = "one\ntwo\n".to_string();
    let target: u32 = 4;

    for should_retrigger in [false, true] {
        let prediction: Current = CurrentExternalPrediction::Jump {
            id: Some("jump-id".to_string()),
            snapshot: snapshot.clone(),
            target,
            should_retrigger,
        };
        let edit_prediction = edit_prediction_from_current_prediction(&prediction, None).unwrap();

        match edit_prediction {
            EditPrediction::Jump { should_retrigger: actual, id, target: place, snapshot: kept } => {
                assert_eq!(actual, should_retrigger);
                assert_eq!(id, Some("jump-id".to_string()));
                assert_eq!(place, target);
                assert_eq!(kept, snapshot);
            }
            EditPrediction::Local { .. } => panic!("expected jump prediction"),
        }
    }
}

fn edit(start: u32, text: &str) -> AnchoredEdit<u32> {
    AnchoredEdit { start, end: start, text: text.to_string() }
}

#[test]
fn edits_that_are_left_are_shown() {
    let prediction: Current = CurrentExternalPrediction::Local {
        id: None,
        buffer: 1,
        snapshot: "s".to_string(),
        edits: vec![edit(0, "ab")],
        edit_preview: "p".to_string(),
    };
    assert_eq!(edit_prediction_from_current_prediction(&prediction, None), None);
    assert_eq!(edit_prediction_from_current_prediction(&prediction, Some(vec![])), None);
    assert_eq!(
        edit_prediction_from_current_prediction(&prediction, Some(vec![edit(1, "b")])),
        Some(EditPrediction::Local {
            id: None,
            edits: vec![edit(1, "b")],
            cursor_position: None,
            edit_preview: Some("p".to_string()),
        })
    );
    assert_eq!(prediction.id(), None);
}
