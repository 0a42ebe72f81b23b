use edge_gateway::template::{CallType, Error, Model, Template, Value};

fn models_eq(this: Vec<Model>, other: Vec<Model>) -> bool {
    if this.len() == other.len() {
        for i in 0..this.len() {
            if this[i] != other[i] {
                println!("this: {:#?}, other: {:#?}", this, other);
                return false;
            }
        }
        true
    } else {
        println!("this: {:#?}, other: {:#?}", this, other);
        false
    }
}

#[test]
fn template_get_value_models() {
    let template = Template::new("{<{name}>: [{\"ts\": <#TS#>,\"values\": <{value}>}]}");
    match template.get_value_models() {
        Ok(models) => {
            let v: Vec<Model> = vec![
                Model::Value("<{name}>".to_string()),
                Model::Value("<{value}>".to_string()),
            ];
            assert_eq!(models_eq(models, v), true);
        }
        Err(_) => panic!("Template::get_value_models test failed"),
    }
}

#[test]
fn template_get_call_models() {
    let template = Template::new("{<{name}>: [{\"ts\": <#TS#>,\"values\": <{value}>}]}");
    match template.get_call_models() {
        Ok(models) => {
            let v: Vec<Model> = vec![Model::Value("<#TS#>".to_string())];
            assert_eq!(models_eq(models, v), true);
        }
        Err(_) => panic!("Template::get_call_models test failed"),
    }
}

#[test]
fn model_is_label() {
    assert_eq!(Model::Value("<{name}>".to_string()).is_label(), true);
}

#[test]
fn model_get_label() {
    match Model::Value("<{name}>".to_string()).get_label() {
        Ok(label) => {
            assert_eq!(label, "name");
        }
        _ => panic!("Model::get_label test failed"),
    }
}

#[test]
fn model_is_call() {
    assert_eq!(Model::Value("<#TS#>".to_string()).is_call(), true);
}

#[test]
fn model_get_call_type() {
    match Model::Value("<#TS#>".to_string()).get_call_type() {
        Ok(call_type) => match call_type {
            CallType::GetTimestamp => {}
            _ => panic!("<#TS#> should be CallType::GetTimestamp"),
        },
        Err(_) => panic!("<#TS#> should be CallType::GetTimestamp"),
    }
}

#[test]
fn model_get_timestamp_msec() {
    match Model::Value("<#TS#>".to_string()).get_timestamp_msec() {
        Ok(_) => {}
        Err(_) => panic!("Model::get_timestamp_msec test failed"),
    }
}

#[test]
fn model_get_call_result() {
    match Model::Value("<#TS#>".to_string()).get_call_result() {
        Ok(_) => {}
        Err(_) => panic!("Model::get_call_result test failed"),
    }
}

/// The timestamp call produces a number value.
#[test]
fn call_result_is_number() {
    match Model::Value("<#TS#>".to_string()).get_call_result() {
        Ok(Value::Number(n)) => assert!(n >= 0),
        other => panic!("expected a number, got {:#?}", other),
    }
}

/// A model with no placeholder body is no label and no call.
#[test]
fn bare_text_is_no_call() {
    let m = Model::Value("<{}>".to_string());
    assert_eq!(m.is_label(), false);
    assert_eq!(m.get_label(), Err(Error::ParseError));
    assert_eq!(m.is_call(), false);
    assert!(matches!(m.get_call_result(), Err(Error::ParseError)));
}

/// An unknown call word is rejected as a call error.
#[test]
fn unknown_call_word() {
    let m = Model::Value("<#NOW#>".to_string());
    assert_eq!(m.is_call(), true);
    assert_eq!(m.get_call_type(), Ok(CallType::Unknown));
    assert!(matches!(m.get_call_result(), Err(Error::CallError)));
}

/// A placeholder body may carry spaces around the label.
#[test]
fn label_with_spaces() {
    let m = Model::Value("<{ temp }>".to_string());
    assert_eq!(m.is_label(), true);
    assert_eq!(m.get_label(), Ok("temp".to_string()));
}

/// A `%` inside the body stops the placeholder from matching.
#[test]
fn percent_breaks_placeholder() {
    let template = Template::new("a <{x%y}> b");
    let models = template.get_value_models().unwrap();
    assert_eq!(models.len(), 0);
}

/// Placeholders are found leftmost and non-overlapping.
#[test]
fn models_in_order() {
    let template = Template::new("<{a}><{b}>tail<{c}>");
    let models = template.get_value_models().unwrap();
    let v: Vec<Model> = vec![
        Model::Value("<{a}>".to_string()),
        Model::Value("<{b}>".to_string()),
        Model::Value("<{c}>".to_string()),
    ];
    assert_eq!(models_eq(models, v), true);
}
