//! The message template grammar. A template is ordinary text carrying
//! two kinds of placeholder: value models `<{ label }>`, replaced with a
//! field looked up in the incoming data, and call models `<# word #>`,
//! replaced with the result of a built-in call (the timestamp). A
//! placeholder runs from `<` plus its opening mark to the first `>`,
//! which must be preceded by the closing mark; the text between the
//! marks is nonempty and free of `%` and `>`. Scanning is leftmost and
//! non-overlapping.

use vstd::prelude::*;
use vstd::string::StrSliceExecFns;
use crate::text::chars_vec;

verus! {

#[derive(Debug)]
pub struct Template<'a> {
    template: &'a str,
}

#[derive(Debug)]
pub enum Model {
    Value(String),
}

#[derive(Debug)]
pub enum Value {
    String(String),
    Number(i64),
}

#[derive(Debug, Clone, Copy, PartialEq, Eq, Structural)]
pub enum Error {
    ParseError,
    CallError,
}

#[derive(Debug, Clone, Copy, PartialEq, Eq, Structural)]
pub enum CallType {
    GetTimestamp,
    Unknown,
}

pub type Models = Vec<Model>;

impl View for Model {
    type V = Seq<char>;

    closed spec fn view(&self) -> Seq<char> {
        match self {
            Model::Value(s) => s@,
        }
    }
}

impl PartialEq for Model {
    fn eq(&self, other: &Self) -> (r: bool) {
        match (self, other) {
            (Model::Value(self_value), Model::Value(other_value)) => {
                let r = <String as PartialEq>::eq(self_value, other_value);
                proof {
                    assert(r == (self@ == other@));
                }
                r
            },
        }
    }
}

impl vstd::std_specs::cmp::PartialEqSpecImpl for Model {
    open spec fn obeys_eq_spec() -> bool {
        true
    }

    open spec fn eq_spec(&self, other: &Model) -> bool {
        self@ == other@
    }
}

/// A placeholder of shape `<` `open` body `close` `>` standing in `s`
/// from `i` to `j` (exclusive): the first `>` at or after the body is
/// `s[j - 1]`, it is preceded by the closing mark, and the body between
/// the marks is nonempty and holds no `%`.
pub open spec fn model_match_at(s: Seq<char>, open: char, close: char, i: int, j: int) -> bool {
    &&& 0 <= i
    &&& i + 5 <= j <= s.len()
    &&& s[i] == '<'
    &&& s[i + 1] == open
    &&& s[j - 2] == close
    &&& s[j - 1] == '>'
    &&& (forall|k: int| i + 2 <= k < j - 1 ==> s[k] != '>')
    &&& (forall|k: int| i + 2 <= k < j - 2 ==> s[k] != '%')
}

pub open spec fn has_match_at(s: Seq<char>, open: char, close: char, i: int) -> bool {
    exists|j: int| model_match_at(s, open, close, i, j)
}

pub open spec fn match_end(s: Seq<char>, open: char, close: char, i: int) -> int {
    choose|j: int| model_match_at(s, open, close, i, j)
}

/// Where a placeholder starts at `i`, its end is determined: the first
/// `>` pins it down.
pub proof fn lemma_match_unique(s: Seq<char>, open: char, close: char, i: int, j1: int, j2: int)
    requires
        model_match_at(s, open, close, i, j1),
        model_match_at(s, open, close, i, j2),
    ensures
        j1 == j2,
{
    if j1 < j2 {
        assert(s[j1 - 1] == '>');
        assert(i + 2 <= j1 - 1 < j2 - 1);
    }
    if j2 < j1 {
        assert(s[j2 - 1] == '>');
        assert(i + 2 <= j2 - 1 < j1 - 1);
    }
}

/// The placeholders of `s` from position `i` on, leftmost first,
/// non-overlapping: scanning advances past each match, and by one
/// character where no match starts.
pub open spec fn spec_models(s: Seq<char>, open: char, close: char, i: int) -> Seq<Seq<char>>
    decreases s.len() - i,
    when 0 <= i
{
    if i >= s.len() {
        Seq::empty()
    } else if has_match_at(s, open, close, i) {
        let j = match_end(s, open, close, i);
        seq![s.subrange(i, j)] + spec_models(s, open, close, j)
    } else {
        spec_models(s, open, close, i + 1)
    }
}

/// The value placeholders `<{ ... }>` of a template.
pub open spec fn spec_value_models(s: Seq<char>) -> Seq<Seq<char>> {
    spec_models(s, '{', '}', 0)
}

/// The call placeholders `<# ... #>` of a template.
pub open spec fn spec_call_models(s: Seq<char>) -> Seq<Seq<char>> {
    spec_models(s, '#', '#', 0)
}

/// Decide whether a placeholder starts at position `i`, and if so where
/// it ends.
fn match_at(chars: &Vec<char>, open: char, close: char, i: usize) -> (r: Option<usize>)
    requires
        i < chars@.len(),
    ensures
        match r {
            Some(j) => model_match_at(chars@, open, close, i as int, j as int),
            None => !has_match_at(chars@, open, close, i as int),
        },
{
    let ghost s = chars@;
    let n = chars.len();
    if chars[i] != '<' {
        proof {
            if has_match_at(s, open, close, i as int) {
                let j = match_end(s, open, close, i as int);
                assert(s[i as int] == '<');
            }
        }
        return None;
    }
    if i + 1 >= n || chars[i + 1] != open {
        proof {
            if has_match_at(s, open, close, i as int) {
                let j = match_end(s, open, close, i as int);
                assert(i + 5 <= j <= s.len());
                assert(s[i as int + 1] == open);
            }
        }
        return None;
    }
    // Find the first '>' after the opening marks.
    let mut k = i + 2;
    while k < n && chars[k] != '>'
        invariant
            s == chars@,
            n == chars@.len(),
            i + 2 <= k <= n,
            forall|t: int| i + 2 <= t < k ==> s[t] != '>',
        decreases n - k,
    {
        k = k + 1;
    }
    if k >= n {
        proof {
            if has_match_at(s, open, close, i as int) {
                let j = match_end(s, open, close, i as int);
                assert(s[j - 1] == '>');
                assert(i + 2 <= j - 1 < n);
            }
        }
        return None;
    }
    // `k` is the first '>' at or after i + 2, so a match can only end at
    // k + 1.
    proof {
        assert(s[k as int] == '>');
        if has_match_at(s, open, close, i as int) {
            let j = match_end(s, open, close, i as int);
            assert(s[j - 1] == '>');
            assert(i + 2 <= j - 1);
            if j - 1 > k as int {
                assert(i + 2 <= k < j - 1);
                assert(s[k as int] != '>');
            }
            assert(j - 1 <= k);
            if j - 1 < k as int {
                assert(forall|t: int| i + 2 <= t < k ==> s[t] != '>');
                assert(s[j - 1] != '>');
            }
            assert(j == k + 1);
        }
    }
    if k - i < 4 {
        proof {
            if has_match_at(s, open, close, i as int) {
                let j = match_end(s, open, close, i as int);
                assert(i + 5 <= j);
            }
        }
        return None;
    }
    if chars[k - 1] != close {
        proof {
            if has_match_at(s, open, close, i as int) {
                let j = match_end(s, open, close, i as int);
                assert(s[j - 2] == close);
            }
        }
        return None;
    }
    // The body between the marks must hold no '%'.
    let mut t = i + 2;
    while t < k - 1
        invariant
            s == chars@,
            n == chars@.len(),
            i + 4 <= k < n,
            i + 2 <= t <= k - 1,
            s[k as int] == '>',
            s[k - 1] == close,
            s[i as int] == '<',
            s[i as int + 1] == open,
            forall|u: int| i + 2 <= u < t ==> s[u] != '%',
            has_match_at(s, open, close, i as int) ==> match_end(s, open, close, i as int)
                == k + 1,
        decreases k - t,
    {
        if chars[t] == '%' {
            proof {
                if has_match_at(s, open, close, i as int) {
                    let j = match_end(s, open, close, i as int);
                    assert(j == k + 1);
                    assert(i + 2 <= t < j - 2);
                    assert(s[t as int] != '%');
                }
            }
            return None;
        }
        t = t + 1;
    }
    proof {
        assert(forall|u: int| i + 2 <= u < k - 1 ==> s[u] != '%');
        assert(forall|u: int| i + 2 <= u < k ==> s[u] != '>');
        assert(model_match_at(s, open, close, i as int, k as int + 1));
    }
    Some(k + 1)
}


/// Scan a string for its placeholders, leftmost first, non-overlapping.
fn scan_models(s: &str, open: char, close: char) -> (r: Vec<Model>)
    ensures
        r@.map_values(|m: Model| m@) == spec_models(s@, open, close, 0),
{
    let chars = chars_vec(s);
    let n = chars.len();
    let mut r: Vec<Model> = Vec::new();
    let mut i: usize = 0;
    while i < n
        invariant
            chars@ == s@,
            n == chars@.len(),
            i <= n,
            spec_models(s@, open, close, 0) == r@.map_values(|m: Model| m@) + spec_models(
                s@,
                open,
                close,
                i as int,
            ),
        decreases n - i,
    {
        let ghost prefix = r@.map_values(|m: Model| m@);
        match match_at(&chars, open, close, i) {
            Some(j) => {
                let piece = s.substring_char(i, j).to_owned();
                r.push(Model::Value(piece));
                proof {
                    lemma_match_unique(
                        s@,
                        open,
                        close,
                        i as int,
                        j as int,
                        match_end(s@, open, close, i as int),
                    );
                    assert(spec_models(s@, open, close, i as int) == seq![
                        s@.subrange(i as int, j as int),
                    ] + spec_models(s@, open, close, j as int));
                    assert(r@.map_values(|m: Model| m@) =~= prefix + seq![
                        s@.subrange(i as int, j as int),
                    ]);
                    assert(prefix + seq![s@.subrange(i as int, j as int)] + spec_models(
                        s@,
                        open,
                        close,
                        j as int,
                    ) =~= prefix + (seq![s@.subrange(i as int, j as int)] + spec_models(
                        s@,
                        open,
                        close,
                        j as int,
                    )));
                }
                i = j;
            },
            None => {
                proof {
                    assert(spec_models(s@, open, close, i as int) == spec_models(
                        s@,
                        open,
                        close,
                        i as int + 1,
                    ));
                }
                i = i + 1;
            },
        }
    }
    proof {
        assert(spec_models(s@, open, close, i as int) =~= Seq::<Seq<char>>::empty());
        assert(r@.map_values(|m: Model| m@) + Seq::<Seq<char>>::empty() =~= r@.map_values(
            |m: Model| m@,
        ));
    }
    r
}

impl<'a> View for Template<'a> {
    type V = Seq<char>;

    closed spec fn view(&self) -> Seq<char> {
        self.template@
    }
}

impl<'a> Template<'a> {
    pub fn new(template: &'a str) -> (r: Self)
        ensures
            r@ == template@,
    {
        Template { template }
    }

    /// The value placeholders `<{ ... }>` of this template, in order.
    pub fn get_value_models(&self) -> (r: Result<Models, Error>)
        ensures
            r is Ok,
            r.unwrap()@.map_values(|m: Model| m@) == spec_value_models(self@),
    {
        Ok(scan_models(self.template, '{', '}'))
    }

    /// The call placeholders `<# ... #>` of this template, in order.
    pub fn get_call_models(&self) -> (r: Result<Models, Error>)
        ensures
            r is Ok,
            r.unwrap()@.map_values(|m: Model| m@) == spec_call_models(self@),
    {
        Ok(scan_models(self.template, '#', '#'))
    }
}


/// The whitespace characters, as both the template grammar and the
/// label grammar treat them (the Unicode white-space set).
pub open spec fn is_space_char(c: char) -> bool {
    let u = c as u32;
    ||| (0x09 <= u && u <= 0x0d)
    ||| u == 0x20
    ||| u == 0x85
    ||| u == 0xa0
    ||| u == 0x1680
    ||| (0x2000 <= u && u <= 0x200a)
    ||| u == 0x2028
    ||| u == 0x2029
    ||| u == 0x202f
    ||| u == 0x205f
    ||| u == 0x3000
}

fn is_space(c: char) -> (r: bool)
    ensures
        r == is_space_char(c),
{
    let u = c as u32;
    (0x09 <= u && u <= 0x0d) || u == 0x20 || u == 0x85 || u == 0xa0 || u == 0x1680 || (0x2000 <= u
        && u <= 0x200a) || u == 0x2028 || u == 0x2029 || u == 0x202f || u == 0x205f || u == 0x3000
}

/// A character that can stand in a value placeholder's label.
pub open spec fn label_char(c: char) -> bool {
    !(c == '<' || c == '{' || c == '}' || c == '%' || c == '>' || is_space_char(c))
}

/// A character that can stand in a call placeholder's word.
pub open spec fn call_char(c: char) -> bool {
    !(c == '<' || c == '#' || c == '}' || c == '>' || is_space_char(c))
}

fn is_label_char(c: char) -> (r: bool)
    ensures
        r == label_char(c),
{
    !(c == '<' || c == '{' || c == '}' || c == '%' || c == '>' || is_space(c))
}

fn is_call_char(c: char) -> (r: bool)
    ensures
        r == call_char(c),
{
    !(c == '<' || c == '#' || c == '}' || c == '>' || is_space(c))
}

/// The run of characters satisfying `p` at the front of `s`.
pub open spec fn run_from(s: Seq<char>, p: spec_fn(char) -> bool) -> Seq<char>
    decreases s.len(),
{
    if s.len() > 0 && p(s[0]) {
        seq![s[0]] + run_from(s.drop_first(), p)
    } else {
        Seq::empty()
    }
}

/// The first maximal run of characters satisfying `p` in `s` (empty
/// where none occurs).
pub open spec fn first_run(s: Seq<char>, p: spec_fn(char) -> bool) -> Seq<char>
    decreases s.len(),
{
    if s.len() == 0 {
        Seq::empty()
    } else if p(s[0]) {
        run_from(s, p)
    } else {
        first_run(s.drop_first(), p)
    }
}

pub open spec fn label_pred() -> spec_fn(char) -> bool {
    |c: char| label_char(c)
}

pub open spec fn call_pred() -> spec_fn(char) -> bool {
    |c: char| call_char(c)
}

/// A model's label: the first maximal run of label characters.
pub open spec fn spec_label_of(s: Seq<char>) -> Seq<char> {
    first_run(s, label_pred())
}

/// Whether a model holds a label at all.
pub open spec fn spec_is_label(s: Seq<char>) -> bool {
    exists|k: int| 0 <= k < s.len() && label_char(s[k])
}

/// A model's call word: the first maximal run of call characters.
pub open spec fn spec_call_word(s: Seq<char>) -> Seq<char> {
    first_run(s, call_pred())
}

/// Whether a model holds a call placeholder.
pub open spec fn spec_is_call(s: Seq<char>) -> bool {
    exists|i: int, j: int| model_match_at(s, '#', '#', i, j)
}

/// The built-in call a model's word names.
pub open spec fn spec_call_type(s: Seq<char>) -> CallType {
    if spec_call_word(s) == seq!['T', 'S'] {
        CallType::GetTimestamp
    } else {
        CallType::Unknown
    }
}

proof fn lemma_first_run_empty(s: Seq<char>, p: spec_fn(char) -> bool)
    requires
        forall|k: int| 0 <= k < s.len() ==> !p(s[k]),
    ensures
        first_run(s, p) == Seq::<char>::empty(),
    decreases s.len(),
{
    if s.len() > 0 {
        assert(forall|k: int| 0 <= k < s.drop_first().len() ==> s.drop_first()[k] == s[k + 1]);
        lemma_first_run_empty(s.drop_first(), p);
    }
}

proof fn lemma_run_from(s: Seq<char>, p: spec_fn(char) -> bool, k1: int)
    requires
        0 < k1 <= s.len(),
        forall|k: int| 0 <= k < k1 ==> p(s[k]),
        k1 == s.len() || !p(s[k1]),
    ensures
        run_from(s, p) == s.subrange(0, k1),
    decreases s.len(),
{
    if k1 == 1 {
        if s.len() > 1 {
            assert(s.drop_first()[0] == s[1]);
            assert(!p(s[1]));
        }
        assert(run_from(s.drop_first(), p) =~= Seq::<char>::empty());
        assert(seq![s[0]] + Seq::<char>::empty() =~= s.subrange(0, 1));
    } else {
        assert(forall|k: int| 0 <= k < k1 - 1 ==> p(s.drop_first()[k]));
        if k1 < s.len() {
            assert(s.drop_first()[k1 - 1] == s[k1]);
        }
        lemma_run_from(s.drop_first(), p, k1 - 1);
        assert(seq![s[0]] + s.drop_first().subrange(0, k1 - 1) =~= s.subrange(0, k1));
    }
}

proof fn lemma_first_run(s: Seq<char>, p: spec_fn(char) -> bool, k0: int, k1: int)
    requires
        0 <= k0 < k1 <= s.len(),
        forall|k: int| 0 <= k < k0 ==> !p(s[k]),
        forall|k: int| k0 <= k < k1 ==> p(s[k]),
        k1 == s.len() || !p(s[k1]),
    ensures
        first_run(s, p) == s.subrange(k0, k1),
    decreases s.len(),
{
    if k0 == 0 {
        lemma_run_from(s, p, k1);
    } else {
        assert(forall|k: int| 0 <= k < k0 - 1 ==> !p(s.drop_first()[k]));
        assert(forall|k: int| k0 - 1 <= k < k1 - 1 ==> p(s.drop_first()[k]));
        if k1 < s.len() {
            assert(s.drop_first()[k1 - 1] == s[k1]);
        }
        lemma_first_run(s.drop_first(), p, k0 - 1, k1 - 1);
        assert(s.drop_first().subrange(k0 - 1, k1 - 1) =~= s.subrange(k0, k1));
    }
}

fn class_char(c: char, want_label: bool) -> (r: bool)
    ensures
        r == if want_label {
            label_char(c)
        } else {
            call_char(c)
        },
{
    if want_label {
        is_label_char(c)
    } else {
        is_call_char(c)
    }
}

/// Find the first maximal run of characters of one class: the label for
/// the value grammar, the word for the call grammar.
fn find_first_run(m: &str, want_label: bool) -> (r: Option<String>)
    ensures
        ({
            let p = if want_label {
                label_pred()
            } else {
                call_pred()
            };
            match r {
                Some(w) => (exists|k: int| 0 <= k < m@.len() && p(m@[k])) && w@ == first_run(
                    m@,
                    p,
                ),
                None => !(exists|k: int| 0 <= k < m@.len() && p(m@[k])),
            }
        }),
{
    let ghost p = if want_label {
        label_pred()
    } else {
        call_pred()
    };
    let chars = chars_vec(m);
    let n = chars.len();
    let mut k0: usize = 0;
    while k0 < n && !class_char(chars[k0], want_label)
        invariant
            chars@ == m@,
            n == chars@.len(),
            k0 <= n,
            p == (if want_label {
                label_pred()
            } else {
                call_pred()
            }),
            forall|k: int| 0 <= k < k0 ==> !p(m@[k]),
        decreases n - k0,
    {
        k0 = k0 + 1;
    }
    if k0 >= n {
        return None;
    }
    let mut k1: usize = k0 + 1;
    while k1 < n && class_char(chars[k1], want_label)
        invariant
            chars@ == m@,
            n == chars@.len(),
            k0 < k1 <= n,
            p == (if want_label {
                label_pred()
            } else {
                call_pred()
            }),
            forall|k: int| 0 <= k < k0 ==> !p(m@[k]),
            forall|k: int| k0 <= k < k1 ==> p(m@[k]),
        decreases n - k1,
    {
        k1 = k1 + 1;
    }
    proof {
        lemma_first_run(m@, p, k0 as int, k1 as int);
    }
    Some(m.substring_char(k0, k1).to_owned())
}


impl Model {
    /// Whether this model's text holds a label at all.
    pub fn is_label(&self) -> (r: bool)
        ensures
            r == spec_is_label(self@),
    {
        let Model::Value(m) = self;
        match find_first_run(m.as_str(), true) {
            Some(_) => true,
            None => false,
        }
    }

    /// The model's label: the first maximal run of label characters.
    pub fn get_label(&self) -> (r: Result<String, Error>)
        ensures
            spec_is_label(self@) ==> r is Ok && r.unwrap()@ == spec_label_of(self@),
            !spec_is_label(self@) ==> r == Err::<String, Error>(Error::ParseError),
    {
        let Model::Value(m) = self;
        match find_first_run(m.as_str(), true) {
            Some(label) => Ok(label),
            None => Err(Error::ParseError),
        }
    }

    /// Whether this model's text holds a call placeholder `<# ... #>`.
    pub fn is_call(&self) -> (r: bool)
        ensures
            r == spec_is_call(self@),
    {
        let Model::Value(m) = self;
        let chars = chars_vec(m.as_str());
        let n = chars.len();
        let mut i: usize = 0;
        while i < n
            invariant
                self@ == m@,
                chars@ == m@,
                n == chars@.len(),
                i <= n,
                forall|k: int| 0 <= k < i ==> !has_match_at(m@, '#', '#', k),
            decreases n - i,
        {
            match match_at(&chars, '#', '#', i) {
                Some(j) => {
                    proof {
                        assert(self@ == m@);
                        assert(model_match_at(self@, '#', '#', i as int, j as int));
                    }
                    return true;
                },
                None => {
                    i = i + 1;
                },
            }
        }
        proof {
            if spec_is_call(self@) {
                let (i0, j0) = choose|i0: int, j0: int| model_match_at(m@, '#', '#', i0, j0);
                assert(i0 + 5 <= j0 <= m@.len());
                assert(has_match_at(m@, '#', '#', i0));
            }
        }
        false
    }

    /// Which built-in call the model's word names: `TS` is the
    /// timestamp, anything else is unknown.
    pub fn get_call_type(&self) -> (r: Result<CallType, Error>)
        ensures
            spec_is_call(self@) ==> r == Ok::<CallType, Error>(spec_call_type(self@)),
            !spec_is_call(self@) ==> r == Err::<CallType, Error>(Error::ParseError),
    {
        if !self.is_call() {
            return Err(Error::ParseError);
        }
        let Model::Value(m) = self;
        match find_first_run(m.as_str(), false) {
            Some(word) => {
                let ts: String = "TS".to_owned();
                proof {
                    reveal_strlit("TS");
                    assert(ts@ =~= seq!['T', 'S']);
                }
                if word == ts {
                    Ok(CallType::GetTimestamp)
                } else {
                    Ok(CallType::Unknown)
                }
            },
            None => {
                proof {
                    lemma_first_run_empty(self@, call_pred());
                    assert(spec_call_word(self@) != seq!['T', 'S']) by {
                        assert(seq!['T', 'S'].len() == 2);
                    }
                }
                Ok(CallType::Unknown)
            },
        }
    }

    /// Relies on `std::time::SystemTime::now` and
    /// `SystemTime::duration_since`: the milliseconds since the Unix
    /// epoch, or 0 where the clock reads earlier than the epoch; the
    /// value depends on the clock, so nothing more is promised of it.
    #[verifier::external_body]
    pub fn get_timestamp_msec(&self) -> (r: Result<i64, Error>)
        ensures
            r is Ok,
    {
        let n = match std::time::SystemTime::now().duration_since(std::time::UNIX_EPOCH) {
            Ok(n) => n,
            Err(_) => std::time::Duration::from_secs(0),
        };
        Ok(n.as_millis() as i64)
    }

    /// The value the model's call produces: a timestamp number for the
    /// `TS` call, an error for an unknown word or a model that is no
    /// call at all.
    pub fn get_call_result(&self) -> (r: Result<Value, Error>)
        ensures
            !spec_is_call(self@) ==> r == Err::<Value, Error>(Error::ParseError),
            spec_is_call(self@) && spec_call_type(self@) == CallType::GetTimestamp ==> r is Ok
                && r.unwrap() is Number,
            spec_is_call(self@) && spec_call_type(self@) == CallType::Unknown ==> r == Err::<
                Value,
                Error,
            >(Error::CallError),
    {
        if !self.is_call() {
            return Err(Error::ParseError);
        }
        match self.get_call_type() {
            Ok(CallType::GetTimestamp) => match self.get_timestamp_msec() {
                Ok(timestamp_msec) => Ok(Value::Number(timestamp_msec)),
                Err(_) => Err(Error::CallError),
            },
            Ok(CallType::Unknown) => Err(Error::CallError),
            Err(err) => Err(err),
        }
    }
}

} // verus!
