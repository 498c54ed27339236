use vstd::prelude::*;

verus! {

/// A value of a parsed configuration record.
#[derive(Debug, PartialEq, Eq)]
pub enum ConfigValue {
    Str(String),
    Bool(bool),
    Int(i64),
    Array(Vec<ConfigValue>),
    Table(Vec<(String, ConfigValue)>),
    /// A value of a kind that no record reads (a float or a date-time).
    Other,
}

/// An attribute that a record reads.
#[derive(Debug, Clone, Copy, PartialEq, Eq, Structural)]
pub enum Field {
    IsMoc,
    Entry,
    Moc,
    Section,
    Collection,
    Uid,
    Title,
    Description,
    Notes,
    Tags,
    Date,
    Path,
    Include,
}

/// Why a configuration record was rejected: the attribute, the position of
/// the section or collection that holds it (if any), and whether it is
/// absent or of the wrong type.
#[derive(Debug, Clone, Copy, PartialEq, Eq, Structural)]
pub struct ValidationError {
    pub part: Option<usize>,
    pub field: Field,
    pub missing: bool,
}

/// The value bound to `key` in a table: the first binding of that key.
pub open spec fn lookup(t: Seq<(String, ConfigValue)>, key: Seq<char>) -> Option<ConfigValue>
    decreases t.len(),
{
    if t.len() == 0 {
        None
    } else if t[0].0@ == key {
        Some(t[0].1)
    } else {
        lookup(t.drop_first(), key)
    }
}

/// The strings of an array whose elements are all strings.
pub open spec fn strings_of(v: ConfigValue) -> Option<Seq<String>> {
    match v {
        ConfigValue::Array(a) => if forall|i: int| 0 <= i < a@.len() ==> (#[trigger] a@[i]) is Str {
            Some(a@.map_values(|x: ConfigValue| x->Str_0))
        } else {
            None
        },
        _ => None,
    }
}

/// The three numbers of an array of exactly three integers in `0..=u16::MAX`.
pub open spec fn date_of(v: ConfigValue) -> Option<Seq<u16>> {
    match v {
        ConfigValue::Array(a) => if a@.len() == 3 && forall|i: int| 0 <= i < 3 ==> (#[trigger] a@[i]) is Int
            && 0 <= a@[i]->Int_0 <= u16::MAX {
            Some(Seq::new(3, |i: int| a@[i]->Int_0 as u16))
        } else {
            None
        },
        _ => None,
    }
}

/// The error for `field` of the part at `part`.
pub open spec fn err(part: Option<usize>, field: Field, missing: bool) -> ValidationError {
    ValidationError { part, field, missing }
}

/// A string attribute that must be present.
pub open spec fn req_str(t: Seq<(String, ConfigValue)>, key: Seq<char>, part: Option<usize>, field: Field) -> Result<String, ValidationError> {
    match lookup(t, key) {
        None => Err(err(part, field, true)),
        Some(ConfigValue::Str(s)) => Ok(s),
        Some(_) => Err(err(part, field, false)),
    }
}

/// A string attribute that defaults to the empty string.
pub open spec fn opt_str(t: Seq<(String, ConfigValue)>, key: Seq<char>, part: Option<usize>, field: Field) -> Result<Seq<char>, ValidationError> {
    match lookup(t, key) {
        None => Ok(Seq::empty()),
        Some(ConfigValue::Str(s)) => Ok(s@),
        Some(_) => Err(err(part, field, false)),
    }
}

/// An array-of-strings attribute that must be present.
pub open spec fn req_strings(t: Seq<(String, ConfigValue)>, key: Seq<char>, part: Option<usize>, field: Field) -> Result<Seq<String>, ValidationError> {
    match lookup(t, key) {
        None => Err(err(part, field, true)),
        Some(v) => match strings_of(v) {
            Some(s) => Ok(s),
            None => Err(err(part, field, false)),
        },
    }
}

/// An array-of-strings attribute that defaults to the empty array.
pub open spec fn opt_strings(t: Seq<(String, ConfigValue)>, key: Seq<char>, part: Option<usize>, field: Field) -> Result<Seq<String>, ValidationError> {
    match lookup(t, key) {
        None => Ok(Seq::empty()),
        Some(v) => match strings_of(v) {
            Some(s) => Ok(s),
            None => Err(err(part, field, false)),
        },
    }
}

/// The binding of `key` in `t`.
pub fn get<'a>(t: &'a Vec<(String, ConfigValue)>, key: &str) -> (r: Option<&'a ConfigValue>)
    ensures
        r is Some == lookup(t@, key@) is Some,
        r is Some ==> *r->Some_0 == lookup(t@, key@)->Some_0,
{
    let k = key.to_string();
    let mut i: usize = 0;
    assert(t@.subrange(0, t@.len() as int) =~= t@);
    while i < t.len()
        invariant
            i <= t@.len(),
            k@ == key@,
            lookup(t@, key@) == lookup(t@.subrange(i as int, t@.len() as int), key@),
        decreases t@.len() - i,
    {
        let ghost rest = t@.subrange(i as int, t@.len() as int);
        if t[i].0 == k {
            return Some(&t[i].1);
        }
        assert(rest.drop_first() =~= t@.subrange(i as int + 1, t@.len() as int));
        i = i + 1;
    }
    None
}

/// The strings of `v`, if it is an array of strings.
pub fn strings(v: &ConfigValue) -> (r: Option<Vec<String>>)
    ensures
        r is Some == strings_of(*v) is Some,
        r is Some ==> r->Some_0@ == strings_of(*v)->Some_0,
{
    match v {
        ConfigValue::Array(a) => {
            let mut out: Vec<String> = Vec::new();
            let mut i: usize = 0;
            while i < a.len()
                invariant
                    i <= a@.len(),
                    *v == ConfigValue::Array(*a),
                    forall|j: int| 0 <= j < i ==> (#[trigger] a@[j]) is Str,
                    out@ == a@.subrange(0, i as int).map_values(|x: ConfigValue| x->Str_0),
                decreases a@.len() - i,
            {
                match &a[i] {
                    ConfigValue::Str(s) => {
                        out.push(s.clone());
                    },
                    _ => {
                        assert(!(a@[i as int] is Str));
                        return None;
                    },
                }
                i = i + 1;
                assert(out@ =~= a@.subrange(0, i as int).map_values(|x: ConfigValue| x->Str_0));
            }
            assert(a@.subrange(0, a@.len() as int) =~= a@);
            Some(out)
        },
        _ => None,
    }
}

/// The three numbers of `v`, if it is a date.
pub fn date(v: &ConfigValue) -> (r: Option<Vec<u16>>)
    ensures
        r is Some == date_of(*v) is Some,
        r is Some ==> r->Some_0@ == date_of(*v)->Some_0,
{
    match v {
        ConfigValue::Array(a) => {
            if a.len() != 3 {
                return None;
            }
            let mut out: Vec<u16> = Vec::new();
            let mut i: usize = 0;
            while i < 3
                invariant
                    i <= 3,
                    a@.len() == 3,
                    *v == ConfigValue::Array(*a),
                    forall|j: int| 0 <= j < i ==> (#[trigger] a@[j]) is Int && 0 <= a@[j]->Int_0 <= u16::MAX,
                    out@ == Seq::new(i as nat, |j: int| a@[j]->Int_0 as u16),
                decreases 3 - i,
            {
                match &a[i] {
                    ConfigValue::Int(n) => {
                        if *n < 0 || *n > 65535 {
                            assert(!(0 <= a@[i as int]->Int_0 <= u16::MAX));
                            return None;
                        }
                        out.push(*n as u16);
                    },
                    _ => {
                        assert(!(a@[i as int] is Int));
                        return None;
                    },
                }
                i = i + 1;
                assert(out@ =~= Seq::new(i as nat, |j: int| a@[j]->Int_0 as u16));
            }
            Some(out)
        },
        _ => None,
    }
}

/// A string attribute that must be present.
pub fn get_str(t: &Vec<(String, ConfigValue)>, key: &str, part: Option<usize>, field: Field) -> (r: Result<String, ValidationError>)
    ensures
        r == req_str(t@, key@, part, field),
{
    match get(t, key) {
        None => Err(ValidationError { part, field, missing: true }),
        Some(ConfigValue::Str(s)) => Ok(s.clone()),
        Some(_) => Err(ValidationError { part, field, missing: false }),
    }
}

/// A string attribute that defaults to the empty string.
pub fn get_opt_str(t: &Vec<(String, ConfigValue)>, key: &str, part: Option<usize>, field: Field) -> (r: Result<String, ValidationError>)
    ensures
        r is Ok == opt_str(t@, key@, part, field) is Ok,
        r is Ok ==> r->Ok_0@ == opt_str(t@, key@, part, field)->Ok_0,
        r is Err ==> r == Err::<String, ValidationError>(opt_str(t@, key@, part, field)->Err_0),
{
    match get(t, key) {
        None => Ok(String::new()),
        Some(ConfigValue::Str(s)) => Ok(s.clone()),
        Some(_) => Err(ValidationError { part, field, missing: false }),
    }
}

/// An array-of-strings attribute; `required` says whether it may be absent
/// (and then empty).
pub fn get_strings(t: &Vec<(String, ConfigValue)>, key: &str, part: Option<usize>, field: Field, required: bool) -> (r: Result<Vec<String>, ValidationError>)
    ensures
        required ==> r is Ok == req_strings(t@, key@, part, field) is Ok,
        required && r is Ok ==> r->Ok_0@ == req_strings(t@, key@, part, field)->Ok_0,
        required && r is Err ==> r == Err::<Vec<String>, ValidationError>(req_strings(t@, key@, part, field)->Err_0),
        !required ==> r is Ok == opt_strings(t@, key@, part, field) is Ok,
        !required && r is Ok ==> r->Ok_0@ == opt_strings(t@, key@, part, field)->Ok_0,
        !required && r is Err ==> r == Err::<Vec<String>, ValidationError>(opt_strings(t@, key@, part, field)->Err_0),
{
    match get(t, key) {
        None => if required {
            Err(ValidationError { part, field, missing: true })
        } else {
            Ok(Vec::new())
        },
        Some(v) => match strings(v) {
            Some(s) => Ok(s),
            None => Err(ValidationError { part, field, missing: false }),
        },
    }
}

/// The array of the strings `values`.
pub fn string_array(values: &Vec<String>) -> (r: ConfigValue)
    ensures
        strings_of(r) == Some(values@),
{
    let mut out: Vec<ConfigValue> = Vec::new();
    let mut i: usize = 0;
    while i < values.len()
        invariant
            i <= values@.len(),
            out@.len() == i,
            forall|j: int| 0 <= j < i ==> #[trigger] out@[j] == ConfigValue::Str(values@[j]),
        decreases values@.len() - i,
    {
        out.push(ConfigValue::Str(values[i].clone()));
        i = i + 1;
    }
    let r = ConfigValue::Array(out);
    assert(out@.map_values(|x: ConfigValue| x->Str_0) =~= values@);
    r
}

} // verus!
