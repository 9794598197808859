//! The arguments of a call: what the logic reads of the JSON payload.

use vstd::prelude::*;
use vstd::string::*;
use vstd::utf8::*;

use crate::json::opt_text;
use crate::json::ParsedJson;
use crate::json::parsed_text_member;
use crate::sftp::base64_decoding;
use crate::sftp::decode_base64;

verus! {

/// The string arguments that a call may carry. An argument that is missing, or
/// is no string, is absent.
#[derive(Debug)]
pub struct CallArguments {
    /// The file or directory, under the binding's root.
    pub path: Option<String>,
    /// The URI of the resource to read.
    pub uri: Option<String>,
    /// The bytes to write, in base64.
    pub content: Option<String>,
    /// The text to write.
    pub text: Option<String>,
}

/// What the arguments of a call say.
pub struct ArgumentsView {
    pub path: Option<Seq<char>>,
    pub uri: Option<Seq<char>>,
    pub content: Option<Seq<char>>,
    pub text: Option<Seq<char>>,
}

impl View for CallArguments {
    type V = ArgumentsView;

    open spec fn view(&self) -> ArgumentsView {
        ArgumentsView {
            path: opt_text(self.path),
            uri: opt_text(self.uri),
            content: opt_text(self.content),
            text: opt_text(self.text),
        }
    }
}

/// What the arguments in a payload say.
pub open spec fn payload_arguments(payload: Seq<u8>) -> ArgumentsView {
    ArgumentsView {
        path: argument(payload, "path"@),
        uri: argument(payload, "uri"@),
        content: argument(payload, "content"@),
        text: argument(payload, "text"@),
    }
}

/// The string argument `key` of a payload. An empty payload has none.
pub open spec fn argument(payload: Seq<u8>, key: Seq<char>) -> Option<Seq<char>> {
    if payload.len() == 0 {
        None
    } else {
        parsed_text_member(payload, key)
    }
}

impl CallArguments {
    /// No argument at all.
    pub fn none() -> (r: CallArguments)
        ensures
            r.path is None,
            r.uri is None,
            r.content is None,
            r.text is None,
    {
        CallArguments { path: None, uri: None, content: None, text: None }
    }

    /// Reads the arguments of a payload.
    pub fn parse(payload: &[u8]) -> (r: CallArguments)
        ensures
            r@ == payload_arguments(payload@),
    {
        if payload.len() == 0 {
            return CallArguments::none();
        }
        let parsed = ParsedJson::parse(payload);
        CallArguments {
            path: parsed.text_member("path"),
            uri: parsed.text_member("uri"),
            content: parsed.text_member("content"),
            text: parsed.text_member("text"),
        }
    }
}

/// What a `put` writes, or why there is nothing to write: the bytes of the
/// base64 `content`, and without one the UTF-8 of the `text`.
pub open spec fn put_content(args: ArgumentsView) -> Result<Seq<u8>, Seq<char>> {
    match (args.content, args.text) {
        (Some(b64), _) => match base64_decoding(b64) {
            Ok(data) => Ok(data),
            Err(reason) => Err("'content' is not valid base64: "@ + reason),
        },
        (None, Some(text)) => Ok(encode_utf8(text)),
        (None, None) => Err("put requires a 'content' (base64) or 'text' argument"@),
    }
}

/// Takes what a `put` writes from the arguments.
pub fn extract_put_content(args: &CallArguments) -> (r: Result<Vec<u8>, String>)
    ensures
        match r {
            Ok(data) => put_content(args@) == Ok::<Seq<u8>, Seq<char>>(data@),
            Err(message) => put_content(args@) == Err::<Seq<u8>, Seq<char>>(message@),
        },
{
    match &args.content {
        Some(b64) => match decode_base64(b64.as_str()) {
            Ok(data) => Ok(data),
            Err(reason) => {
                let mut message = "'content' is not valid base64: ".to_owned();
                message.append(reason.as_str());
                Err(message)
            },
        },
        None => match &args.text {
            Some(text) => Ok(text.as_str().as_bytes_vec()),
            None => Err("put requires a 'content' (base64) or 'text' argument".to_owned()),
        },
    }
}

}
