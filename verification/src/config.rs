use vstd::prelude::*;

verus! {

/// The whole gateway configuration.
pub struct Config {
    pub mqtt: Mqtt,
    pub i2c: I2C,
    pub ios: IOs,
}

/// Broker connection and credentials.
pub struct Mqtt {
    pub connection: Connection,
    pub credentials: Credentials,
}

/// The bus device node to use.
pub struct I2C {
    pub device: String,
}

/// Where to reach the broker, and under which client id.
pub struct Connection {
    pub host: String,
    pub port: u16,
    pub id: String,
}

/// Broker login.
pub struct Credentials {
    pub user: String,
    pub password: String,
}

/// The configured input and output device specifications.
pub struct IOs {
    pub inputs: Vec<IO>,
    pub outputs: Vec<IO>,
}

/// One device specification: a bus address, a chip kind, and the pin names
/// in bit-offset order.
pub struct IO {
    pub address: u8,
    pub chip: String,
    pub pins: Vec<String>,
}

/// Ghost view of one device specification.
pub ghost struct IoV {
    pub address: u8,
    pub chip: Seq<char>,
    pub pins: Seq<Seq<char>>,
}

impl View for IO {
    type V = IoV;

    open spec fn view(&self) -> IoV {
        IoV {
            address: self.address,
            chip: self.chip@,
            pins: self.pins.deep_view(),
        }
    }
}

/// The ghost view of a list of device specifications.
pub open spec fn ios_view(ios: Seq<IO>) -> Seq<IoV> {
    ios.map_values(|io: IO| io@)
}

/// The bus device node used when the configuration names none.
pub fn default_i2c_path() -> (p: String)
    ensures
        p@ == "/dev/i2c-1"@,
{
    String::from_str("/dev/i2c-1")
}

// ------------------------------------------------------------------
// Reading the configuration out of a YAML document
// ------------------------------------------------------------------

/// Declares serde_yaml::Value, the dynamic YAML value tree, so that the
/// reader functions below can pass it around; it is opaque to the verifier.
#[verifier::external_type_specification]
#[verifier::external_body]
pub struct ExYamlValue(serde_yaml::Value);

/// Relies on serde_yaml::from_str: parses one YAML document into its
/// dynamic value tree; a syntax error comes back as its message text.
#[verifier::external_body]
fn yaml_from_str(s: &str) -> Result<serde_yaml::Value, String> {
    match serde_yaml::from_str::<serde_yaml::Value>(s) {
        Ok(v) => Ok(v),
        Err(e) => Err(e.to_string()),
    }
}

/// Relies on serde_yaml::Value::get: the value under a string key of a
/// YAML mapping, or nothing.
#[verifier::external_body]
fn yaml_get<'a>(v: &'a serde_yaml::Value, key: &str) -> Option<&'a serde_yaml::Value> {
    v.get(key)
}

/// Relies on serde_yaml::from_value for String: the text of a YAML string
/// value, or the type mismatch as its message text.
#[verifier::external_body]
fn yaml_as_string(v: &serde_yaml::Value) -> Result<String, String> {
    match serde_yaml::from_value::<String>(v.clone()) {
        Ok(s) => Ok(s),
        Err(e) => Err(e.to_string()),
    }
}

/// Relies on serde_yaml::from_value for u16: the value of a YAML integer
/// that fits a u16, or the mismatch as its message text.
#[verifier::external_body]
fn yaml_as_u16(v: &serde_yaml::Value) -> Result<u16, String> {
    match serde_yaml::from_value::<u16>(v.clone()) {
        Ok(n) => Ok(n),
        Err(e) => Err(e.to_string()),
    }
}

/// Relies on serde_yaml::from_value for u8: the value of a YAML integer
/// that fits a u8, or the mismatch as its message text.
#[verifier::external_body]
fn yaml_as_u8(v: &serde_yaml::Value) -> Result<u8, String> {
    match serde_yaml::from_value::<u8>(v.clone()) {
        Ok(n) => Ok(n),
        Err(e) => Err(e.to_string()),
    }
}

/// Relies on serde_yaml::from_value for Vec<String>: the elements of a
/// YAML sequence of strings, or the mismatch as its message text.
#[verifier::external_body]
fn yaml_as_string_list(v: &serde_yaml::Value) -> Result<Vec<String>, String> {
    match serde_yaml::from_value::<Vec<String>>(v.clone()) {
        Ok(l) => Ok(l),
        Err(e) => Err(e.to_string()),
    }
}

/// Relies on serde_yaml::Value::as_sequence: the elements of a YAML
/// sequence value, or nothing for any other kind of value.
#[verifier::external_body]
fn yaml_as_sequence<'a>(v: &'a serde_yaml::Value) -> Option<&'a Vec<serde_yaml::Value>> {
    v.as_sequence()
}

/// The message reported for a configuration key that is absent.
fn missing_field(field_name: &str) -> (e: String)
    ensures
        e@ == "missing field `"@ + field_name@ + "`"@,
{
    let mut e = String::from_str("missing field `");
    e.append(field_name);
    e.append("`");
    e
}

/// The required field's value, or the missing-field error naming it.
fn require_field<'a>(v: Option<&'a serde_yaml::Value>, field_name: &str) -> (r: Result<
    &'a serde_yaml::Value,
    String,
>)
    ensures
        match v {
            Some(x) => r matches Ok(y) && y == x,
            None => r matches Err(e) && e@ == "missing field `"@ + field_name@ + "`"@,
        },
{
    match v {
        Some(x) => Ok(x),
        None => Err(missing_field(field_name)),
    }
}

fn parse_connection(v: &serde_yaml::Value) -> Result<Connection, String> {
    let host = match yaml_as_string(require_field(yaml_get(v, "host"), "host")?) {
        Ok(s) => s,
        Err(e) => {
            return Err(e);
        },
    };
    let port = match yaml_as_u16(require_field(yaml_get(v, "port"), "port")?) {
        Ok(n) => n,
        Err(e) => {
            return Err(e);
        },
    };
    let id = match yaml_as_string(require_field(yaml_get(v, "id"), "id")?) {
        Ok(s) => s,
        Err(e) => {
            return Err(e);
        },
    };
    Ok(Connection { host, port, id })
}

fn parse_credentials(v: &serde_yaml::Value) -> Result<Credentials, String> {
    let user = match yaml_as_string(require_field(yaml_get(v, "user"), "user")?) {
        Ok(s) => s,
        Err(e) => {
            return Err(e);
        },
    };
    let password = match yaml_as_string(require_field(yaml_get(v, "password"), "password")?) {
        Ok(s) => s,
        Err(e) => {
            return Err(e);
        },
    };
    Ok(Credentials { user, password })
}

fn parse_mqtt(v: &serde_yaml::Value) -> Result<Mqtt, String> {
    let connection = parse_connection(require_field(yaml_get(v, "connection"), "connection")?)?;
    let credentials = parse_credentials(
        require_field(yaml_get(v, "credentials"), "credentials")?,
    )?;
    Ok(Mqtt { connection, credentials })
}

fn parse_i2c(v: &serde_yaml::Value) -> Result<I2C, String> {
    match yaml_get(v, "device") {
        None => Ok(I2C { device: default_i2c_path() }),
        Some(d) => {
            let device = match yaml_as_string(d) {
                Ok(s) => s,
                Err(e) => {
                    return Err(e);
                },
            };
            Ok(I2C { device })
        },
    }
}

fn parse_io(v: &serde_yaml::Value) -> Result<IO, String> {
    let address = match yaml_as_u8(require_field(yaml_get(v, "address"), "address")?) {
        Ok(n) => n,
        Err(e) => {
            return Err(e);
        },
    };
    let chip = match yaml_as_string(require_field(yaml_get(v, "chip"), "chip")?) {
        Ok(s) => s,
        Err(e) => {
            return Err(e);
        },
    };
    let pins = match yaml_get(v, "pins") {
        None => Vec::new(),
        Some(pv) => match yaml_as_string_list(pv) {
            Ok(l) => l,
            Err(e) => {
                return Err(e);
            },
        },
    };
    Ok(IO { address, chip, pins })
}

fn parse_io_list(v: &serde_yaml::Value) -> Result<Vec<IO>, String> {
    let seq = match yaml_as_sequence(v) {
        Some(s) => s,
        None => {
            return Err(String::from_str("invalid type: expected a sequence"));
        },
    };
    let mut list: Vec<IO> = Vec::new();
    let mut i: usize = 0;
    while i < seq.len()
        decreases seq.len() - i,
    {
        let io = parse_io(&seq[i])?;
        list.push(io);
        i = i + 1;
    }
    Ok(list)
}

fn parse_ios(v: &serde_yaml::Value) -> Result<IOs, String> {
    let inputs = parse_io_list(require_field(yaml_get(v, "inputs"), "inputs")?)?;
    let outputs = parse_io_list(require_field(yaml_get(v, "outputs"), "outputs")?)?;
    Ok(IOs { inputs, outputs })
}

fn config_from_value(v: &serde_yaml::Value) -> Result<Config, String> {
    let mqtt = parse_mqtt(require_field(yaml_get(v, "mqtt"), "mqtt")?)?;
    let i2c = parse_i2c(require_field(yaml_get(v, "i2c"), "i2c")?)?;
    let ios = parse_ios(require_field(yaml_get(v, "ios"), "ios")?)?;
    Ok(Config { mqtt, i2c, ios })
}

/// A parse failure's message: the context naming the document, then the
/// underlying complaint.
pub open spec fn spec_wrapped_error(doc: Seq<char>, inner: Seq<char>) -> Seq<char> {
    "Failed to parse YAML document: \n"@ + doc + ": "@ + inner
}

fn wrap_parse_error(s: &str, inner: &str) -> (e: String)
    ensures
        e@ == spec_wrapped_error(s@, inner@),
{
    let mut e = String::from_str("Failed to parse YAML document: \n");
    e.append(s);
    e.append(": ");
    e.append(inner);
    e
}

/// Parses one YAML document into the configuration. What the document must
/// look like is decided by the YAML reader; any failure, syntactic or
/// structural, is reported wrapped in a message that quotes the document.
pub fn parse_config_str(s: &str) -> (r: Result<Config, String>)
    ensures
        r matches Err(e) ==> exists|m: Seq<char>| e@ == spec_wrapped_error(s@, m),
{
    let doc = match yaml_from_str(s) {
        Ok(v) => v,
        Err(inner) => {
            let e = wrap_parse_error(s, inner.as_str());
            proof {
                assert(e@ == spec_wrapped_error(s@, inner@));
            }
            return Err(e);
        },
    };
    match config_from_value(&doc) {
        Ok(c) => Ok(c),
        Err(inner) => {
            let e = wrap_parse_error(s, inner.as_str());
            proof {
                assert(e@ == spec_wrapped_error(s@, inner@));
            }
            Err(e)
        },
    }
}

/// Anything a configuration document can be read out of.
pub trait ConfigParser {
    /// Parses the configuration, reporting any failure as a message that
    /// quotes the document.
    fn parse_config(self) -> Result<Config, String>;
}

impl ConfigParser for &str {
    fn parse_config(self) -> Result<Config, String> {
        parse_config_str(self)
    }
}

} // verus!
