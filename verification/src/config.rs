//! The operator's configuration: which networks are admitted, which header
//! carries the client address, and which tools are guarded.

use serde_json::Value;
use vstd::prelude::*;

use crate::json::as_array;
use crate::json::as_object;
use crate::json::get_field;
use crate::json::json_of;
use crate::json::fields_of;
use crate::json::field_of;
use crate::json::keys;
use crate::json::read_string;
use crate::json::read_string_list;
use crate::json::string_list_refusal;
use crate::json::string_refusal;
use crate::json::type_refusal;
use crate::json::type_words;
use crate::json::Json;
use crate::text::decimal;
use crate::text::decimal_text;
use crate::text::same_text;
use crate::text::stands_before;
use crate::text::texts;

verus! {

/// The configuration of the allowlist.
#[derive(Debug, Clone)]
pub struct IpAllowlistConfig {
    /// Networks to admit, in CIDR notation (`10.0.0.0/8`, `::1/128`).
    pub allow: Vec<String>,
    /// The header that carries the client address.
    pub ip_header: String,
    /// Globs of the tools to guard; where there are none, every tool is.
    pub tools: Vec<String>,
}

/// What a configuration holds.
pub ghost struct ConfigView {
    pub allow: Seq<Seq<char>>,
    pub ip_header: Seq<char>,
    pub tools: Seq<Seq<char>>,
}

impl View for IpAllowlistConfig {
    type V = ConfigView;

    open spec fn view(&self) -> ConfigView {
        ConfigView {
            allow: texts(self.allow@),
            ip_header: self.ip_header@,
            tools: texts(self.tools@),
        }
    }
}

/// Why a configuration is refused.
#[derive(Debug)]
pub enum ConfigError {
    /// The document is neither an object nor an array, in the words for the
    /// operator.
    NotAConfig(String),
    /// The object has a field that no configuration has.
    UnknownField(String),
    /// The object has no field `allow`.
    MissingAllow,
    /// A field has a value of another type, in the words of the reader.
    InvalidField(String),
    /// The array has no items.
    TooFewItems,
    /// The array has that many items, more than there are fields.
    TooManyItems(usize),
    /// An entry of `allow` is no network, with the words of the reader.
    InvalidCidr(String, String),
}

/// Why a configuration is refused, by the characters of the texts.
pub ghost enum ConfigFault {
    NotAConfig(Seq<char>),
    UnknownField(Seq<char>),
    MissingAllow,
    InvalidField(Seq<char>),
    TooFewItems,
    TooManyItems(nat),
    InvalidCidr(Seq<char>, Seq<char>),
}

impl View for ConfigError {
    type V = ConfigFault;

    open spec fn view(&self) -> ConfigFault {
        match *self {
            ConfigError::NotAConfig(words) => ConfigFault::NotAConfig(words@),
            ConfigError::UnknownField(key) => ConfigFault::UnknownField(key@),
            ConfigError::MissingAllow => ConfigFault::MissingAllow,
            ConfigError::InvalidField(words) => ConfigFault::InvalidField(words@),
            ConfigError::TooFewItems => ConfigFault::TooFewItems,
            ConfigError::TooManyItems(count) => ConfigFault::TooManyItems(count as nat),
            ConfigError::InvalidCidr(cidr, words) => ConfigFault::InvalidCidr(cidr@, words@),
        }
    }
}

/// What an operator is told about a refused configuration.
pub open spec fn fault_message(fault: ConfigFault) -> Seq<char> {
    match fault {
        ConfigFault::NotAConfig(words) => words,
        ConfigFault::UnknownField(key) => "unknown field `"@ + key
            + "`, expected one of `allow`, `ip_header`, `tools`"@,
        ConfigFault::MissingAllow => "missing field `allow`"@,
        ConfigFault::InvalidField(words) => words,
        ConfigFault::TooFewItems =>
            "invalid length 0, expected struct IpAllowlistConfig with 3 elements"@,
        ConfigFault::TooManyItems(count) => "invalid length "@ + decimal_text(count)
            + ", expected fewer elements in array"@,
        ConfigFault::InvalidCidr(cidr, words) => "invalid CIDR '"@ + cidr + "': "@ + words,
    }
}

impl ConfigError {
    /// What an operator is told about the refused configuration.
    pub fn message(&self) -> (text: String)
        ensures
            text@ == fault_message(self@),
    {
        match self {
            ConfigError::NotAConfig(words) => words.clone(),
            ConfigError::UnknownField(key) => {
                "unknown field `".to_owned().concat(key.as_str()).concat(
                    "`, expected one of `allow`, `ip_header`, `tools`",
                )
            },
            ConfigError::MissingAllow => "missing field `allow`".to_owned(),
            ConfigError::InvalidField(words) => words.clone(),
            ConfigError::TooFewItems => {
                "invalid length 0, expected struct IpAllowlistConfig with 3 elements".to_owned()
            },
            ConfigError::TooManyItems(count) => {
                "invalid length ".to_owned().concat(decimal(*count as u128).as_str()).concat(
                    ", expected fewer elements in array",
                )
            },
            ConfigError::InvalidCidr(cidr, words) => {
                "invalid CIDR '".to_owned().concat(cidr.as_str()).concat("': ").concat(
                    words.as_str(),
                )
            },
        }
    }
}

/// The header that is read where the configuration names none.
pub fn default_ip_header() -> (header: String)
    ensures
        header@ == "x-forwarded-for"@,
{
    "x-forwarded-for".to_owned()
}

/// What is wrong with a field of a configuration object, if anything is.
pub open spec fn field_fault(key: Seq<char>, value: Json) -> Option<ConfigFault> {
    if key == "allow"@ || key == "tools"@ {
        if value.is_string_list() {
            None
        } else {
            Some(ConfigFault::InvalidField(string_list_refusal(value)))
        }
    } else if key == "ip_header"@ {
        if value is Text {
            None
        } else {
            Some(ConfigFault::InvalidField(string_refusal(value)))
        }
    } else {
        Some(ConfigFault::UnknownField(key))
    }
}

/// Whether an object has a faulty field of that key.
pub open spec fn is_fault(fields: Map<Seq<char>, Json>, key: Seq<char>) -> bool {
    fields.contains_key(key) && field_fault(key, fields[key]) is Some
}

/// Whether `key` is the first faulty field of an object, in the order of the
/// alphabet.
pub open spec fn is_first_fault(fields: Map<Seq<char>, Json>, key: Seq<char>) -> bool {
    &&& is_fault(fields, key)
    &&& forall|other: Seq<char>|
        #[trigger] is_fault(fields, other) && other != key ==> stands_before(key, other)
}

/// The first fault among the fields of an object that has one.
pub open spec fn first_fault(fields: Map<Seq<char>, Json>) -> ConfigFault {
    let key = choose|key: Seq<char>| is_first_fault(fields, key);
    field_fault(key, fields[key])->Some_0
}

/// What a configuration object holds, or its first fault.
pub open spec fn read_fields(fields: Map<Seq<char>, Json>) -> Result<ConfigView, ConfigFault> {
    if exists|key: Seq<char>| is_fault(fields, key) {
        Err(first_fault(fields))
    } else if !fields.contains_key("allow"@) {
        Err(ConfigFault::MissingAllow)
    } else {
        Ok(
            ConfigView {
                allow: fields["allow"@].string_list(),
                ip_header: match field_of(fields, "ip_header"@) {
                    Some(header) => header->Text_0,
                    None => "x-forwarded-for"@,
                },
                tools: match field_of(fields, "tools"@) {
                    Some(tools) => tools.string_list(),
                    None => Seq::empty(),
                },
            },
        )
    }
}

/// What a configuration array holds, its items standing for the fields in
/// their order, or its first fault.
pub open spec fn read_items(items: Seq<Json>) -> Result<ConfigView, ConfigFault> {
    if items.len() == 0 {
        Err(ConfigFault::TooFewItems)
    } else if !items[0].is_string_list() {
        Err(ConfigFault::InvalidField(string_list_refusal(items[0])))
    } else if items.len() > 1 && items[1] !is Text {
        Err(ConfigFault::InvalidField(string_refusal(items[1])))
    } else if items.len() > 2 && !items[2].is_string_list() {
        Err(ConfigFault::InvalidField(string_list_refusal(items[2])))
    } else if items.len() > 3 {
        Err(ConfigFault::TooManyItems(items.len()))
    } else {
        Ok(
            ConfigView {
                allow: items[0].string_list(),
                ip_header: if items.len() > 1 {
                    items[1]->Text_0
                } else {
                    "x-forwarded-for"@
                },
                tools: if items.len() > 2 {
                    items[2].string_list()
                } else {
                    Seq::empty()
                },
            },
        )
    }
}

/// What a configuration document holds, or why it is refused.
pub open spec fn read_config(document: Json) -> Result<ConfigView, ConfigFault> {
    match document {
        Json::Object(fields) => read_fields(fields),
        Json::Array(items) => read_items(items),
        _ => Err(ConfigFault::NotAConfig(type_refusal(document, "struct IpAllowlistConfig"@))),
    }
}

/// Two texts do not stand before one another.
proof fn order_is_strict(a: Seq<char>, b: Seq<char>)
    ensures
        !(stands_before(a, b) && stands_before(b, a)),
    decreases a.len(),
{
    if a.len() > 0 && b.len() > 0 && a[0] == b[0] {
        order_is_strict(a.drop_first(), b.drop_first());
    }
}

/// An object has at most one first fault.
proof fn first_fault_is_unique(fields: Map<Seq<char>, Json>, a: Seq<char>, b: Seq<char>)
    requires
        is_first_fault(fields, a),
        is_first_fault(fields, b),
    ensures
        a == b,
{
    order_is_strict(a, b);
}

fn refuse_field(key: &str, value: &Value) -> (refusal: Option<ConfigError>)
    ensures
        match refusal {
            Some(error) => field_fault(key@, json_of(*value)) == Some(error@),
            None => field_fault(key@, json_of(*value)) is None,
        },
{
    if same_text(key, "allow") || same_text(key, "tools") {
        match read_string_list(value) {
            Ok(_) => None,
            Err(words) => Some(ConfigError::InvalidField(words)),
        }
    } else if same_text(key, "ip_header") {
        match read_string(value) {
            Ok(_) => None,
            Err(words) => Some(ConfigError::InvalidField(words)),
        }
    } else {
        Some(ConfigError::UnknownField(key.to_owned()))
    }
}

/// The first fault among the fields of an object, if there is one.
fn refuse_object(object: &serde_json::Map<String, Value>) -> (refusal: Option<ConfigError>)
    ensures
        match refusal {
            Some(error) => {
                &&& exists|key: Seq<char>| is_fault(fields_of(*object), key)
                &&& error@ == first_fault(fields_of(*object))
            },
            None => forall|key: Seq<char>| !is_fault(fields_of(*object), key),
        },
{
    let ghost fields = fields_of(*object);
    let list = keys(object);
    let mut i: usize = 0;
    while i < list.len()
        invariant
            i <= list@.len(),
            fields == fields_of(*object),
            forall|key: Seq<char>|
                #[trigger] fields.contains_key(key) <==> texts(list@).contains(key),
            forall|i: int, j: int|
                0 <= i < j < list@.len() ==> stands_before(
                    #[trigger] list@[i]@,
                    #[trigger] list@[j]@,
                ),
            forall|j: int| 0 <= j < i ==> !is_fault(fields, #[trigger] list@[j]@),
        decreases list@.len() - i,
    {
        let key = list[i].as_str();
        proof {
            assert(texts(list@)[i as int] == key@);
            assert(fields.contains_key(key@));
        }
        if let Some(value) = get_field(object, key) {
            if let Some(error) = refuse_field(key, value) {
                proof {
                    assert forall|other: Seq<char>|
                        #[trigger] is_fault(fields, other) && other != key@ implies stands_before(
                        key@,
                        other,
                    ) by {
                        let j = choose|j: int|
                            0 <= j < texts(list@).len() && texts(list@)[j] == other;
                        assert(list@[j]@ == other);
                    }
                    assert(is_first_fault(fields, key@));
                    let chosen = choose|key: Seq<char>| is_first_fault(fields, key);
                    first_fault_is_unique(fields, key@, chosen);
                }
                return Some(error);
            }
        }
        i = i + 1;
    }
    proof {
        assert forall|key: Seq<char>| !is_fault(fields, key) by {
            if fields.contains_key(key) {
                let j = choose|j: int| 0 <= j < texts(list@).len() && texts(list@)[j] == key;
                assert(list@[j]@ == key);
            }
        }
    }
    None
}

/// The words for a document that is neither an object nor an array.
fn refuse_type(value: &Value) -> (words: String)
    requires
        json_of(*value) !is Array,
    ensures
        words@ == type_refusal(json_of(*value), "struct IpAllowlistConfig"@),
{
    // The refusal of a list names the type of the document as well.
    let refusal = match read_string_list(value) {
        Ok(_) => String::new(),
        Err(words) => words,
    };
    let expected: usize = "a sequence".unicode_len();
    let length: usize = refusal.as_str().unicode_len();
    proof {
        reveal_strlit("a sequence");
        let named = "invalid type: "@ + type_words(json_of(*value)) + ", expected "@;
        assert(refusal@.take(length - expected) =~= named);
    }
    refusal.as_str().substring_char(0, length - expected).to_owned().concat(
        "struct IpAllowlistConfig",
    )
}

fn read_optional_string(value: Option<&Value>) -> (read: Result<String, ConfigError>)
    ensures
        match read {
            Ok(text) => match value {
                Some(value) => json_of(*value) == Json::Text(text@),
                None => text@ == "x-forwarded-for"@,
            },
            Err(error) => value is Some && json_of(*value->Some_0) !is Text && error@
                == ConfigFault::InvalidField(string_refusal(json_of(*value->Some_0))),
        },
{
    match value {
        Some(value) => match read_string(value) {
            Ok(text) => Ok(text),
            Err(words) => Err(ConfigError::InvalidField(words)),
        },
        None => Ok(default_ip_header()),
    }
}

fn read_optional_list(value: Option<&Value>) -> (read: Result<Vec<String>, ConfigError>)
    ensures
        match read {
            Ok(list) => match value {
                Some(value) => json_of(*value).is_string_list() && texts(list@) == json_of(
                    *value,
                ).string_list(),
                None => texts(list@) == Seq::<Seq<char>>::empty(),
            },
            Err(error) => value is Some && !json_of(*value->Some_0).is_string_list() && error@
                == ConfigFault::InvalidField(string_list_refusal(json_of(*value->Some_0))),
        },
{
    match value {
        Some(value) => match read_string_list(value) {
            Ok(list) => Ok(list),
            Err(words) => Err(ConfigError::InvalidField(words)),
        },
        None => {
            let list: Vec<String> = Vec::new();
            assert(texts(list@) =~= Seq::<Seq<char>>::empty());
            Ok(list)
        },
    }
}

impl IpAllowlistConfig {
    /// Reads a configuration object: `allow` is required, `ip_header` and
    /// `tools` have defaults, and no other field is taken.
    fn from_object(object: &serde_json::Map<String, Value>) -> (read: Result<
        IpAllowlistConfig,
        ConfigError,
    >)
        ensures
            match read {
                Ok(config) => read_fields(fields_of(*object)) == Ok::<ConfigView, ConfigFault>(
                    config@,
                ),
                Err(error) => read_fields(fields_of(*object)) == Err::<ConfigView, ConfigFault>(
                    error@,
                ),
            },
    {
        let ghost fields = fields_of(*object);
        if let Some(error) = refuse_object(object) {
            return Err(error);
        }
        proof {
            assert(!is_fault(fields, "allow"@));
            assert(!is_fault(fields, "ip_header"@));
            assert(!is_fault(fields, "tools"@));
            reveal_strlit("allow");
            reveal_strlit("ip_header");
            reveal_strlit("tools");
            assert("ip_header"@.len() != "allow"@.len());
            assert("ip_header"@.len() != "tools"@.len());
        }
        let allow = match get_field(object, "allow") {
            Some(value) => read_optional_list(Some(value))?,
            None => return Err(ConfigError::MissingAllow),
        };
        let ip_header = read_optional_string(get_field(object, "ip_header"))?;
        let tools = read_optional_list(get_field(object, "tools"))?;
        Ok(IpAllowlistConfig { allow, ip_header, tools })
    }

    /// Reads a configuration array, whose items stand for `allow`, `ip_header`
    /// and `tools`; the last two may be left out.
    fn from_items(items: &Vec<Value>) -> (read: Result<IpAllowlistConfig, ConfigError>)
        ensures
            ({
                let documents = items@.map_values(|item: Value| json_of(item));
                match read {
                    Ok(config) => read_items(documents) == Ok::<ConfigView, ConfigFault>(config@),
                    Err(error) => read_items(documents) == Err::<ConfigView, ConfigFault>(error@),
                }
            }),
    {
        if items.len() == 0 {
            return Err(ConfigError::TooFewItems);
        }
        let allow = read_optional_list(Some(&items[0]))?;
        let header = if items.len() > 1 {
            Some(&items[1])
        } else {
            None
        };
        let ip_header = read_optional_string(header)?;
        let globs = if items.len() > 2 {
            Some(&items[2])
        } else {
            None
        };
        let tools = read_optional_list(globs)?;
        if items.len() > 3 {
            return Err(ConfigError::TooManyItems(items.len()));
        }
        Ok(IpAllowlistConfig { allow, ip_header, tools })
    }

    /// Reads a configuration document. A field that no configuration has, a
    /// missing `allow` and a value of another type are all refused.
    pub fn from_value(value: &Value) -> (read: Result<IpAllowlistConfig, ConfigError>)
        ensures
            match read {
                Ok(config) => read_config(json_of(*value)) == Ok::<ConfigView, ConfigFault>(
                    config@,
                ),
                Err(error) => read_config(json_of(*value)) == Err::<ConfigView, ConfigFault>(
                    error@,
                ),
            },
    {
        match as_object(value) {
            Some(object) => IpAllowlistConfig::from_object(object),
            None => match as_array(value) {
                Some(items) => IpAllowlistConfig::from_items(items),
                None => Err(ConfigError::NotAConfig(refuse_type(value))),
            },
        }
    }
}

/// The document that lists the given texts.
pub open spec fn list_document(list: Seq<Seq<char>>) -> Json {
    Json::Array(list.map_values(|text: Seq<char>| Json::Text(text)))
}

proof fn strings_are_listed(document: Json)
    ensures
        document.is_string_list() ==> document == list_document(document.string_list()),
        forall|list: Seq<Seq<char>>| document == #[trigger] list_document(list) ==> {
            &&& document.is_string_list()
            &&& document.string_list() == list
        },
{
    if document.is_string_list() {
        let items = document->Array_0;
        assert(items =~= list_document(document.string_list())->Array_0);
    }
    assert forall|list: Seq<Seq<char>>| document == #[trigger] list_document(list) implies {
        &&& document.is_string_list()
        &&& document.string_list() == list
    } by {
        let items = document->Array_0;
        assert forall|i: int| 0 <= i < items.len() implies (#[trigger] items[i]) is Text by {
            assert(items[i] == Json::Text(list[i]));
        }
        assert(document.string_list() =~= list);
    }
}

proof fn field_names_differ()
    ensures
        "allow"@ != "ip_header"@,
        "allow"@ != "tools"@,
        "ip_header"@ != "tools"@,
{
    reveal_strlit("allow");
    reveal_strlit("ip_header");
    reveal_strlit("tools");
    assert("allow"@[0] != "tools"@[0]);
    assert("allow"@.len() != "ip_header"@.len());
    assert("tools"@.len() != "ip_header"@.len());
}

/// A configuration object is read field for field. What is read from it are the
/// very strings that stand in `allow`, `ip_header` and `tools`, an empty list
/// being an empty list; `x-forwarded-for` and no globs stand in for a missing
/// `ip_header` and missing `tools`.
pub proof fn object_is_read_field_for_field(fields: Map<Seq<char>, Json>)
    ensures
        read_config(Json::Object(fields)) matches Ok(config) ==> {
            &&& fields.contains_key("allow"@)
            &&& fields["allow"@] == list_document(config.allow)
            &&& fields.contains_key("ip_header"@) ==> fields["ip_header"@] == Json::Text(
                config.ip_header,
            )
            &&& !fields.contains_key("ip_header"@) ==> config.ip_header == "x-forwarded-for"@
            &&& fields.contains_key("tools"@) ==> fields["tools"@] == list_document(config.tools)
            &&& !fields.contains_key("tools"@) ==> config.tools.len() == 0
            &&& forall|key: Seq<char>| #[trigger]
                fields.contains_key(key) ==> key == "allow"@ || key == "ip_header"@ || key
                    == "tools"@
        },
{
    if read_config(Json::Object(fields)) is Ok {
        field_names_differ();
        assert(!is_fault(fields, "allow"@));
        assert(!is_fault(fields, "ip_header"@));
        assert(!is_fault(fields, "tools"@));
        strings_are_listed(fields["allow"@]);
        strings_are_listed(fields["tools"@]);
        assert forall|key: Seq<char>| #[trigger] fields.contains_key(key) implies key == "allow"@
            || key == "ip_header"@ || key == "tools"@ by {
            assert(!is_fault(fields, key));
        }
    }
}

/// Every configuration object that gives `allow` as a list of strings, and
/// `ip_header` as a string and `tools` as a list of strings or not at all, and
/// nothing else, is read, with the strings that it gives.
pub proof fn written_object_reads_back(
    allow: Seq<Seq<char>>,
    ip_header: Option<Seq<char>>,
    tools: Option<Seq<Seq<char>>>,
    fields: Map<Seq<char>, Json>,
)
    requires
        fields.contains_key("allow"@),
        fields["allow"@] == list_document(allow),
        match ip_header {
            Some(text) => fields.contains_key("ip_header"@) && fields["ip_header"@] == Json::Text(
                text,
            ),
            None => !fields.contains_key("ip_header"@),
        },
        match tools {
            Some(globs) => fields.contains_key("tools"@) && fields["tools"@] == list_document(
                globs,
            ),
            None => !fields.contains_key("tools"@),
        },
        forall|key: Seq<char>| #[trigger]
            fields.contains_key(key) ==> key == "allow"@ || key == "ip_header"@ || key == "tools"@,
    ensures
        read_config(Json::Object(fields)) is Ok,
        read_config(Json::Object(fields))->Ok_0.allow == allow,
        read_config(Json::Object(fields))->Ok_0.ip_header == match ip_header {
            Some(text) => text,
            None => "x-forwarded-for"@,
        },
        read_config(Json::Object(fields))->Ok_0.tools == match tools {
            Some(globs) => globs,
            None => Seq::empty(),
        },
{
    field_names_differ();
    strings_are_listed(fields["allow"@]);
    strings_are_listed(fields["tools"@]);
    assert forall|key: Seq<char>| !is_fault(fields, key) by {
        if fields.contains_key(key) {
        }
    }
}

/// A configuration array is read by position: its items are `allow`,
/// `ip_header` and `tools`, of which the last two may be missing.
pub proof fn array_is_read_by_position(items: Seq<Json>)
    ensures
        read_config(Json::Array(items)) matches Ok(config) ==> {
            &&& 1 <= items.len() <= 3
            &&& items[0] == list_document(config.allow)
            &&& items.len() > 1 ==> items[1] == Json::Text(config.ip_header)
            &&& items.len() <= 1 ==> config.ip_header == "x-forwarded-for"@
            &&& items.len() > 2 ==> items[2] == list_document(config.tools)
            &&& items.len() <= 2 ==> config.tools.len() == 0
        },
        1 <= items.len() <= 3 && (exists|allow: Seq<Seq<char>>|
            items[0] == #[trigger] list_document(allow)) && (items.len() > 1 ==> items[1] is Text)
            && (items.len() > 2 ==> exists|tools: Seq<Seq<char>>|
            items[2] == #[trigger] list_document(tools)) ==> read_config(
            Json::Array(items),
        ) is Ok,
{
    strings_are_listed(items[0]);
    strings_are_listed(items[2]);
}

/// What an operator is told of a configuration array that is refused: of no
/// items, of the first item that is of another type, or of too many items.
pub proof fn array_is_refused_by_position(items: Seq<Json>)
    ensures
        ({
            let read = read_config(Json::Array(items));
            let list = |i: int| items[i].is_string_list();
            &&& items.len() == 0 ==> read is Err && fault_message(read->Err_0)
                == "invalid length 0, expected struct IpAllowlistConfig with 3 elements"@
            &&& items.len() > 0 && !list(0) ==> read is Err && fault_message(read->Err_0)
                == string_list_refusal(items[0])
            &&& items.len() > 1 && list(0) && items[1] !is Text ==> read is Err && fault_message(
                read->Err_0,
            ) == string_refusal(items[1])
            &&& items.len() > 2 && list(0) && items[1] is Text && !list(2) ==> read is Err
                && fault_message(read->Err_0) == string_list_refusal(items[2])
            &&& items.len() > 3 && list(0) && items[1] is Text && list(2) ==> read is Err
                && fault_message(read->Err_0) == "invalid length "@ + decimal_text(items.len())
                + ", expected fewer elements in array"@
        }),
{
}

/// What an operator is told of a configuration object that is refused, where
/// `key` is its first bad field in the order of the alphabet: that no
/// configuration has the field, or which type its value has.
pub proof fn object_is_refused_for_its_first_bad_field(
    fields: Map<Seq<char>, Json>,
    key: Seq<char>,
)
    requires
        fields.contains_key(key),
        (key == "allow"@ || key == "tools"@) ==> forall|list: Seq<Seq<char>>|
            fields[key] != #[trigger] list_document(list),
        key == "ip_header"@ ==> fields[key] !is Text,
        forall|other: Seq<char>| #[trigger]
            fields.contains_key(other) && other != key && !stands_before(key, other) ==> {
                ||| (other == "allow"@ || other == "tools"@) && exists|list: Seq<Seq<char>>|
                    fields[other] == #[trigger] list_document(list)
                ||| other == "ip_header"@ && fields[other] is Text
            },
    ensures
        read_config(Json::Object(fields)) is Err,
        fault_message(read_config(Json::Object(fields))->Err_0) == if key == "allow"@ || key
            == "tools"@ {
            string_list_refusal(fields[key])
        } else if key == "ip_header"@ {
            string_refusal(fields[key])
        } else {
            "unknown field `"@ + key + "`, expected one of `allow`, `ip_header`, `tools`"@
        },
{
    field_names_differ();
    strings_are_listed(fields[key]);
    assert(is_fault(fields, key));
    assert forall|other: Seq<char>| #[trigger]
        is_fault(fields, other) && other != key implies stands_before(key, other) by {
        if !stands_before(key, other) {
            assert(fields.contains_key(other));
            strings_are_listed(fields[other]);
        }
    }
    assert(is_first_fault(fields, key));
    let chosen = choose|key: Seq<char>| is_first_fault(fields, key);
    first_fault_is_unique(fields, key, chosen);
}

/// What an operator is told of a configuration object whose fields are all
/// good, but which has no `allow`.
pub proof fn object_is_refused_without_allow(fields: Map<Seq<char>, Json>)
    requires
        forall|key: Seq<char>| #[trigger]
            fields.contains_key(key) ==> {
                ||| key == "ip_header"@ && fields[key] is Text
                ||| key == "tools"@ && exists|list: Seq<Seq<char>>|
                    fields[key] == #[trigger] list_document(list)
            },
    ensures
        read_config(Json::Object(fields)) is Err,
        fault_message(read_config(Json::Object(fields))->Err_0) == "missing field `allow`"@,
{
    field_names_differ();
    assert forall|key: Seq<char>| !is_fault(fields, key) by {
        if fields.contains_key(key) {
            strings_are_listed(fields[key]);
        }
    }
}

/// What an operator is told of a configuration that is neither an object nor an
/// array.
pub proof fn other_document_is_refused(document: Json)
    requires
        document !is Object,
        document !is Array,
    ensures
        read_config(document) is Err,
        fault_message(read_config(document)->Err_0) == type_refusal(
            document,
            "struct IpAllowlistConfig"@,
        ),
{
}

/// Contracts speak of every string of a configuration, character for character.
pub proof fn configuration_is_seen_whole(config: IpAllowlistConfig)
    ensures
        config@.allow.len() == config.allow@.len(),
        forall|i: int|
            0 <= i < config.allow@.len() ==> config@.allow[i] == (#[trigger] config.allow@[i])@,
        config@.ip_header == config.ip_header@,
        config@.tools.len() == config.tools@.len(),
        forall|i: int|
            0 <= i < config.tools@.len() ==> config@.tools[i] == (#[trigger] config.tools@[i])@,
{
}

/// What an operator is told of each fault: the field, the count or the entry
/// that is at fault stands in the words as it was given.
pub proof fn message_names_the_fault(
    key: Seq<char>,
    count: nat,
    cidr: Seq<char>,
    words: Seq<char>,
)
    ensures
        fault_message(ConfigFault::NotAConfig(words)) == words,
        fault_message(ConfigFault::InvalidField(words)) == words,
        fault_message(ConfigFault::UnknownField(key)) == "unknown field `"@ + key
            + "`, expected one of `allow`, `ip_header`, `tools`"@,
        fault_message(ConfigFault::MissingAllow) == "missing field `allow`"@,
        fault_message(ConfigFault::TooFewItems)
            == "invalid length 0, expected struct IpAllowlistConfig with 3 elements"@,
        fault_message(ConfigFault::TooManyItems(count)) == "invalid length "@ + decimal_text(count)
            + ", expected fewer elements in array"@,
        fault_message(ConfigFault::InvalidCidr(cidr, words)) == "invalid CIDR '"@ + cidr + "': "@
            + words,
{
}

/// Contracts speak of an error by its kind and by the characters of its texts.
pub proof fn error_is_seen_whole(error: ConfigError)
    ensures
        match error {
            ConfigError::NotAConfig(words) => error@ == ConfigFault::NotAConfig(words@),
            ConfigError::UnknownField(key) => error@ == ConfigFault::UnknownField(key@),
            ConfigError::MissingAllow => error@ == ConfigFault::MissingAllow,
            ConfigError::InvalidField(words) => error@ == ConfigFault::InvalidField(words@),
            ConfigError::TooFewItems => error@ == ConfigFault::TooFewItems,
            ConfigError::TooManyItems(count) => error@ == ConfigFault::TooManyItems(count as nat),
            ConfigError::InvalidCidr(cidr, words) => error@ == ConfigFault::InvalidCidr(
                cidr@,
                words@,
            ),
        },
{
}

}
