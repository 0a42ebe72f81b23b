//! Message formatting: fill a template's value placeholders from a
//! parsed JSON reading, fill its call placeholders from the built-in
//! calls, and check that what comes out is JSON again; and render the
//! one-line JSON log record that accompanies each successful publish.

use vstd::prelude::*;
use vstd::string::StrSliceExecFns;
use vstd::string::StringExecFns;
use crate::jsontext::{
    json_as_string, json_is_number, json_is_string, json_member, json_number_string, json_parse,
    json_parses,
};
use crate::template::{Model, Template, Value};
use crate::text::{chars_to_string, chars_vec, i64_dec_chars, replace_chars};

verus! {

/// Substitute one looked-up value for every occurrence of its model.
fn substitute(msg: Vec<char>, model_text: &String, replacement: Vec<char>) -> (r: Vec<char>)
    ensures
        model_text@.len() > 0 ==> r@ == crate::text::spec_replace(
            msg@,
            model_text@,
            replacement@,
        ),
{
    let from = chars_vec(model_text.as_str());
    if from.len() == 0 {
        return msg;
    }
    replace_chars(&msg, &from, &replacement)
}

/// Format one raw reading against the template: parse the reading as
/// JSON, replace each value placeholder with the member its label names
/// (strings quoted, numbers as they render), replace each call
/// placeholder with its call's result, and accept the outcome only if
/// it is JSON again.
pub fn format_msg(original: &str, template_str: &str) -> (r: Result<String, ()>)
    ensures
        !json_parses(original@) ==> r is Err,
        r is Ok ==> json_parses(original@) && json_parses(r.unwrap()@),
{
    let parsed = match json_parse(original) {
        Ok(parsed) => parsed,
        Err(()) => {
            return Err(());
        },
    };
    let template = Template::new(template_str);
    let mut msg: Vec<char> = chars_vec(template_str);
    match template.get_value_models() {
        Ok(value_models) => {
            let mut i: usize = 0;
            while i < value_models.len()
                decreases value_models.len() - i,
            {
                let model = &value_models[i];
                i = i + 1;
                let label = match model.get_label() {
                    Ok(label) => label,
                    Err(_err) => {
                        continue ;
                    },
                };
                let Model::Value(value_model) = model;
                let member = json_member(&parsed, label.as_str());
                if json_is_string(member) {
                    let string = match json_as_string(member) {
                        Some(string) => string,
                        None => "".to_owned(),
                    };
                    let mut quoted: Vec<char> = Vec::new();
                    quoted.push('"');
                    let mut value_chars = chars_vec(string.as_str());
                    quoted.append(&mut value_chars);
                    quoted.push('"');
                    msg = substitute(msg, value_model, quoted);
                } else if json_is_number(member) {
                    let num = match json_number_string(member) {
                        Some(num) => num,
                        None => {
                            return Err(());
                        },
                    };
                    msg = substitute(msg, value_model, chars_vec(num.as_str()));
                }
                // Any other member kind leaves the placeholder as it is.
            }
        },
        Err(_err) => {},
    }
    match template.get_call_models() {
        Ok(call_models) => {
            let mut i: usize = 0;
            while i < call_models.len()
                decreases call_models.len() - i,
            {
                let model = &call_models[i];
                i = i + 1;
                match model.get_call_result() {
                    Ok(value) => {
                        let Model::Value(call_model) = model;
                        match value {
                            Value::Number(num) => {
                                msg = substitute(msg, call_model, i64_dec_chars(num));
                            },
                            Value::String(string) => {
                                msg = substitute(msg, call_model, chars_vec(string.as_str()));
                            },
                        }
                    },
                    Err(_err) => {},
                }
            }
        },
        Err(_err) => {},
    }
    let out = chars_to_string(&msg);
    if let Err(()) = json_parse(out.as_str()) {
        return Err(());
    }
    Ok(out)
}

/// The one-line JSON log record: the timestamp in brackets, then the
/// message where there is one.
pub open spec fn spec_log_line(time: Seq<char>, msg: Seq<char>) -> Seq<char> {
    if msg.len() == 0 {
        "{\"LOGS\": \"["@ + time + "]\"}"@
    } else {
        "{\"LOGS\": \"["@ + time + "]: "@ + msg + "\"}"@
    }
}

/// Relies on `chrono::Local::now` and `DateTime::format`: the current
/// local time rendered as `%Y-%m-%d %H:%M:%S`; the value depends on the
/// clock and the machine's time zone, so nothing is promised of it.
#[verifier::external_body]
fn local_time_string() -> String {
    chrono::Local::now().format("%Y-%m-%d %H:%M:%S").to_string()
}

/// Build the log record for a given timestamp text.
pub fn format_log_line(time: &str, msg: &str) -> (r: String)
    ensures
        r@ == spec_log_line(time@, msg@),
{
    let mut out: String = "{\"LOGS\": \"[".to_owned();
    out.append(time);
    if msg.is_empty() {
        out.append("]\"}");
    } else {
        out.append("]: ");
        out.append(msg);
        out.append("\"}");
    }
    out
}

/// The log record for a message, stamped with the local time now.
pub fn format_log(msg: &str) -> (r: Result<String, ()>)
    ensures
        r is Ok,
        exists|time: Seq<char>| r.unwrap()@ == spec_log_line(time, msg@),
{
    let time_str = local_time_string();
    let log = format_log_line(time_str.as_str(), msg);
    proof {
        assert(log@ == spec_log_line(time_str@, msg@));
    }
    Ok(log)
}

} // verus!
