use vstd::prelude::*;
use vstd::string::StringExecFns;

use crate::model::{
    channels_view, ids_view, Auth, Channel, ChannelType, Frame, StreamError, Subscribe,
};

verus! {

/// The compact JSON text of a string value, quotes and escapes included.
pub uninterp spec fn json_string_of(s: Seq<char>) -> Seq<char>;

/// Relies on serde_json's `Display` for `Value::String`: it writes the
/// compact JSON text of the string, which depends on its characters alone.
#[verifier::external_body]
fn quote(s: &str) -> (r: String)
    ensures
        r@ == json_string_of(s@),
{
    serde_json::Value::String(s.to_string()).to_string()
}

/// Texts joined with commas.
pub open spec fn joined(items: Seq<Seq<char>>) -> Seq<char>
    decreases items.len(),
{
    if items.len() == 0 {
        Seq::empty()
    } else if items.len() == 1 {
        items[0]
    } else {
        joined(items.drop_last()) + ","@ + items.last()
    }
}

/// A JSON array whose elements have the given texts.
pub open spec fn json_array(items: Seq<Seq<char>>) -> Seq<char> {
    "["@ + joined(items) + "]"@
}

/// The wire name of a channel.
pub open spec fn channel_name_spec(t: ChannelType) -> Seq<char> {
    match t {
        ChannelType::Heartbeat => "heartbeat"@,
        ChannelType::Status => "status"@,
        ChannelType::Ticker => "ticker"@,
        ChannelType::Level2 => "level2"@,
        ChannelType::User => "user"@,
        ChannelType::Matches => "matches"@,
        ChannelType::Full => "full"@,
    }
}

/// The JSON text of each of a list of strings.
pub open spec fn quoted_all(ids: Seq<Seq<char>>) -> Seq<Seq<char>> {
    ids.map_values(|s: Seq<char>| json_string_of(s))
}

/// The JSON text of a channel descriptor.
pub open spec fn channel_text(c: (ChannelType, Option<Seq<Seq<char>>>)) -> Seq<char> {
    match c.1 {
        None => "\""@ + channel_name_spec(c.0) + "\""@,
        Some(ids) => "{\"name\":\""@ + channel_name_spec(c.0) + "\",\"product_ids\":"@
            + json_array(quoted_all(ids)) + "}"@,
    }
}

/// The JSON text of an authentication block.
pub open spec fn auth_text(a: Auth) -> Seq<char> {
    "{\"signature\":"@ + json_string_of(a.signature@) + ",\"key\":"@ + json_string_of(a.key@)
        + ",\"passphrase\":"@ + json_string_of(a.passphrase@) + ",\"timestamp\":"@
        + json_string_of(a.timestamp@) + "}"@
}

/// The wire text of a subscribe command.
pub open spec fn subscribe_text(cmd: Subscribe) -> Seq<char> {
    let channels = channel_texts(cmd.channels@);
    let auth = match cmd.auth {
        None => Seq::<char>::empty(),
        Some(a) => ",\"auth\":"@ + auth_text(a),
    };
    "{\"type\":\"subscribe\",\"channels\":"@ + json_array(channels) + ",\"product_ids\":"@
        + json_array(quoted_all(ids_view(cmd.product_ids@))) + auth + "}"@
}

/// The wire name of a channel.
pub fn channel_name(t: ChannelType) -> (r: &'static str)
    ensures
        r@ == channel_name_spec(t),
{
    match t {
        ChannelType::Heartbeat => "heartbeat",
        ChannelType::Status => "status",
        ChannelType::Ticker => "ticker",
        ChannelType::Level2 => "level2",
        ChannelType::User => "user",
        ChannelType::Matches => "matches",
        ChannelType::Full => "full",
    }
}

/// The views of a list of texts.
pub open spec fn texts_view(items: Seq<String>) -> Seq<Seq<char>> {
    items.map_values(|s: String| s@)
}

/// Writes the JSON array whose elements are the given texts, each already
/// in JSON form.
pub fn array_text(items: &Vec<String>) -> (r: String)
    ensures
        r@ == json_array(texts_view(items@)),
{
    let ghost texts = texts_view(items@);
    let mut body = String::new();
    let mut i: usize = 0;
    while i < items.len()
        invariant
            i <= items.len(),
            texts == texts_view(items@),
            body@ == joined(texts.take(i as int)),
        decreases items.len() - i,
    {
        if i > 0 {
            body.append(",");
        }
        body.append(items[i].as_str());
        proof {
            assert(texts.take(i + 1).drop_last() =~= texts.take(i as int));
        }
        i = i + 1;
    }
    assert(texts.take(items.len() as int) =~= texts);
    let mut out = String::new();
    out.append("[");
    out.append(body.as_str());
    out.append("]");
    out
}

/// The JSON text of each of a list of strings.
fn quote_all(ids: &Vec<String>) -> (r: Vec<String>)
    ensures
        texts_view(r@) == quoted_all(ids_view(ids@)),
{
    let mut out: Vec<String> = Vec::new();
    let mut i: usize = 0;
    while i < ids.len()
        invariant
            i <= ids.len(),
            texts_view(out@) == quoted_all(ids_view(ids@)).take(i as int),
        decreases ids.len() - i,
    {
        let q = quote(ids[i].as_str());
        let ghost before = out@;
        out.push(q);
        proof {
            assert(quoted_all(ids_view(ids@))[i as int] == json_string_of(ids@[i as int]@));
            assert(texts_view(out@) =~= texts_view(before).push(q@));
            assert(texts_view(out@) =~= quoted_all(ids_view(ids@)).take(i + 1));
        }
        i = i + 1;
    }
    assert(quoted_all(ids_view(ids@)).take(ids.len() as int) =~= quoted_all(ids_view(ids@)));
    out
}

/// The JSON array of a list of strings.
fn string_array(ids: &Vec<String>) -> (r: String)
    ensures
        r@ == json_array(quoted_all(ids_view(ids@))),
{
    array_text(&quote_all(ids))
}

/// The JSON text of one channel descriptor.
fn channel_json(c: &Channel) -> (r: String)
    ensures
        r@ == channel_text(c@),
{
    let mut out = String::new();
    match c {
        Channel::Name(t) => {
            out.append("\"");
            out.append(channel_name(*t));
            out.append("\"");
        },
        Channel::WithProduct { name, product_ids } => {
            out.append("{\"name\":\"");
            out.append(channel_name(*name));
            out.append("\",\"product_ids\":");
            let ids = string_array(product_ids);
            out.append(ids.as_str());
            out.append("}");
        },
    }
    out
}

/// The texts of each of a list of channel descriptors.
pub open spec fn channel_texts(cs: Seq<Channel>) -> Seq<Seq<char>> {
    channels_view(cs).map_values(|c: (ChannelType, Option<Seq<Seq<char>>>)| channel_text(c))
}

/// The JSON array of a list of channel descriptors.
fn channel_array(cs: &Vec<Channel>) -> (r: String)
    ensures
        r@ == json_array(channel_texts(cs@)),
{
    let mut texts: Vec<String> = Vec::new();
    let mut i: usize = 0;
    while i < cs.len()
        invariant
            i <= cs.len(),
            texts_view(texts@) == channel_texts(cs@).take(i as int),
        decreases cs.len() - i,
    {
        let t = channel_json(&cs[i]);
        let ghost before = texts@;
        texts.push(t);
        proof {
            assert(channel_texts(cs@)[i as int] == channel_text(cs@[i as int]@));
            assert(texts_view(texts@) =~= texts_view(before).push(t@));
            assert(texts_view(texts@) =~= channel_texts(cs@).take(i + 1));
        }
        i = i + 1;
    }
    assert(channel_texts(cs@).take(cs.len() as int) =~= channel_texts(cs@));
    array_text(&texts)
}

/// The JSON text of an authentication block.
fn auth_json(a: &Auth) -> (r: String)
    ensures
        r@ == auth_text(*a),
{
    let mut out = String::new();
    out.append("{\"signature\":");
    out.append(quote(a.signature.as_str()).as_str());
    out.append(",\"key\":");
    out.append(quote(a.key.as_str()).as_str());
    out.append(",\"passphrase\":");
    out.append(quote(a.passphrase.as_str()).as_str());
    out.append(",\"timestamp\":");
    out.append(quote(a.timestamp.as_str()).as_str());
    out.append("}");
    out
}

/// Writes a subscribe command as a text frame. A command that names no
/// channel is refused.
pub fn encode(cmd: &Subscribe) -> (r: Result<String, StreamError>)
    ensures
        r is Err <==> cmd.channels@.len() == 0,
        r is Err ==> r matches Err(StreamError::EncodingError),
        r matches Ok(t) ==> t@ == subscribe_text(*cmd),
{
    if cmd.channels.len() == 0 {
        return Err(StreamError::EncodingError);
    }
    let mut out = String::new();
    out.append("{\"type\":\"subscribe\",\"channels\":");
    out.append(channel_array(&cmd.channels).as_str());
    out.append(",\"product_ids\":");
    out.append(string_array(&cmd.product_ids).as_str());
    match &cmd.auth {
        None => {},
        Some(a) => {
            out.append(",\"auth\":");
            out.append(auth_json(a).as_str());
        },
    }
    out.append("}");
    Ok(out)
}

/// What the decoder makes of a frame: its text, or the error for a frame
/// of another kind.
pub open spec fn frame_result(frame: Frame) -> Result<String, StreamError> {
    match frame {
        Frame::Text(t) => Ok(t),
        _ => Err(StreamError::UnexpectedFrameKind),
    }
}

/// The text of a frame. Only text frames carry messages: any other kind is
/// a protocol violation at this layer.
pub fn frame_text(frame: Frame) -> (r: Result<String, StreamError>)
    ensures
        r == frame_result(frame),
{
    match frame {
        Frame::Text(t) => Ok(t),
        _ => Err(StreamError::UnexpectedFrameKind),
    }
}

} // verus!
