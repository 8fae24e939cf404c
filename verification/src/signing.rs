use vstd::prelude::*;
use vstd::string::{StringExecFns, StringSliceAdditionalSpecFns};
use vstd::utf8::encode_utf8;
use sha1::{Digest, Sha1};
use crate::image::UploadImageOptions;
use crate::text::push_char;

verus! {

/// The SHA-1 digest of a byte run; the result depends on the bytes alone.
pub uninterp spec fn sha1_digest(data: Seq<u8>) -> Seq<u8>;

/// Relies on sha1::Sha1 through the Digest trait: the digest is a function
/// of the input bytes alone and is always 20 bytes long.
#[verifier::external_body]
fn sha1_of(data: &[u8]) -> (r: Vec<u8>)
    ensures
        r@ == sha1_digest(data@),
        r@.len() == 20,
{
    Sha1::digest(data).to_vec()
}

pub const HEX_LOWER: [char; 16] = [
    '0',
    '1',
    '2',
    '3',
    '4',
    '5',
    '6',
    '7',
    '8',
    '9',
    'a',
    'b',
    'c',
    'd',
    'e',
    'f',
];

/// A byte run in lowercase hexadecimal: two digits per byte.
pub open spec fn spec_hex_of(data: Seq<u8>) -> Seq<char>
    decreases data.len(),
{
    if data.len() == 0 {
        Seq::<char>::empty()
    } else {
        spec_hex_of(data.drop_last()) + seq![
            HEX_LOWER@[data.last() as int / 16],
            HEX_LOWER@[data.last() as int % 16],
        ]
    }
}

/// Renders a byte run in lowercase hexadecimal.
pub fn hex_of(data: &Vec<u8>) -> (r: String)
    ensures
        r@ == spec_hex_of(data@),
{
    let n = data.len();
    let mut r = String::new();
    let mut i: usize = 0;
    proof {
        assert(data@.take(0) =~= Seq::<u8>::empty());
    }
    while i < n
        invariant
            n == data@.len(),
            i <= n,
            r@ == spec_hex_of(data@.take(i as int)),
        decreases n - i,
    {
        let b = data[i];
        proof {
            assert(data@.take(i as int + 1).drop_last() =~= data@.take(i as int));
            assert(data@.take(i as int + 1).last() == data@[i as int]);
        }
        push_char(&mut r, HEX_LOWER[(b / 16) as usize]);
        push_char(&mut r, HEX_LOWER[(b % 16) as usize]);
        proof {
            assert(r@ =~= spec_hex_of(data@.take(i as int + 1)));
        }
        i = i + 1;
    }
    proof {
        assert(data@.take(n as int) =~= data@);
    }
    r
}

/// The parameters an upload request signs, as `(name, value)` pairs in the
/// lexicographic order of their names: folder, public id, timestamp,
/// transformation - the optional ones only when set.
pub open spec fn spec_signing_params(
    timestamp: Seq<char>,
    folder: Option<Seq<char>>,
    public_id: Option<Seq<char>>,
    transformation: Option<Seq<char>>,
) -> Seq<(Seq<char>, Seq<char>)> {
    let s0 = Seq::<(Seq<char>, Seq<char>)>::empty();
    let s1 = match folder {
        Some(f) => s0.push(("folder"@, f)),
        None => s0,
    };
    let s2 = match public_id {
        Some(p) => s1.push(("public_id"@, p)),
        None => s1,
    };
    let s3 = s2.push(("timestamp"@, timestamp));
    match transformation {
        Some(t) => s3.push(("transformation"@, t)),
        None => s3,
    }
}

/// The view of a built parameter list.
pub open spec fn spec_params_view(params: Seq<(String, String)>) -> Seq<(Seq<char>, Seq<char>)> {
    params.map_values(|p: (String, String)| (p.0@, p.1@))
}

/// The string the parameters spell when joined for signing:
/// `name=value` pairs separated by `&`.
pub open spec fn spec_join_params(params: Seq<(Seq<char>, Seq<char>)>) -> Seq<char>
    decreases params.len(),
{
    if params.len() == 0 {
        Seq::<char>::empty()
    } else if params.len() == 1 {
        params[0].0 + "="@ + params[0].1
    } else {
        spec_join_params(params.drop_last()) + "&"@ + params.last().0 + "="@ + params.last().1
    }
}

/// The signature of an upload request: the joined parameters with the
/// account secret appended, hashed with SHA-1 and rendered in lowercase
/// hexadecimal.
pub open spec fn spec_signature(params: Seq<(Seq<char>, Seq<char>)>, secret: Seq<char>) -> Seq<
    char,
> {
    spec_hex_of(sha1_digest(encode_utf8(spec_join_params(params) + secret)))
}

/// Builds the parameter list an upload request signs, in signing order.
pub fn signing_params(
    timestamp: String,
    folder: Option<String>,
    public_id: Option<String>,
    transformation: Option<String>,
) -> (r: Vec<(String, String)>)
    ensures
        spec_params_view(r@) == spec_signing_params(
            timestamp@,
            match folder {
                Some(f) => Some(f@),
                None => None,
            },
            match public_id {
                Some(p) => Some(p@),
                None => None,
            },
            match transformation {
                Some(t) => Some(t@),
                None => None,
            },
        ),
{
    let ghost spec_result = spec_signing_params(
        timestamp@,
        match folder {
            Some(ref f) => Some(f@),
            None => None,
        },
        match public_id {
            Some(ref p) => Some(p@),
            None => None,
        },
        match transformation {
            Some(ref t) => Some(t@),
            None => None,
        },
    );
    let mut r: Vec<(String, String)> = Vec::new();
    if let Some(f) = folder {
        r.push((String::from_str("folder"), f));
    }
    if let Some(p) = public_id {
        r.push((String::from_str("public_id"), p));
    }
    r.push((String::from_str("timestamp"), timestamp));
    if let Some(t) = transformation {
        r.push((String::from_str("transformation"), t));
    }
    proof {
        assert(spec_params_view(r@) =~= spec_result);
    }
    r
}

/// Joins the parameters and computes the upload signature.
pub fn signature_for(params: &Vec<(String, String)>, secret: &str) -> (r: String)
    ensures
        r@ == spec_signature(spec_params_view(params@), secret@),
{
    let n = params.len();
    let mut to_sign = String::new();
    let mut i: usize = 0;
    proof {
        assert(spec_params_view(params@).take(0) =~= Seq::<(Seq<char>, Seq<char>)>::empty());
    }
    while i < n
        invariant
            n == params@.len(),
            i <= n,
            to_sign@ == spec_join_params(spec_params_view(params@).take(i as int)),
        decreases n - i,
    {
        proof {
            assert(spec_params_view(params@).take(i as int + 1).drop_last() =~= spec_params_view(
                params@,
            ).take(i as int));
            assert(spec_params_view(params@).take(i as int + 1).last() == spec_params_view(
                params@,
            )[i as int]);
        }
        if i > 0 {
            to_sign = to_sign.concat("&");
        }
        to_sign = to_sign.concat(params[i].0.as_str());
        to_sign = to_sign.concat("=");
        to_sign = to_sign.concat(params[i].1.as_str());
        i = i + 1;
    }
    proof {
        assert(spec_params_view(params@).take(n as int) =~= spec_params_view(params@));
    }
    let to_sign = to_sign.concat(secret);
    let digest = sha1_of(to_sign.as_str().as_bytes());
    hex_of(&digest)
}

/// An upload request ready to be sent: the signed parameters in order, and
/// their signature.
pub struct SignedUpload {
    pub params: Vec<(String, String)>,
    pub signature: String,
}

/// Prepares the signed part of an upload request from the upload options,
/// the request timestamp and the account secret.
pub fn sign_upload(options: UploadImageOptions, timestamp: String, api_secret: &str) -> (r:
    SignedUpload)
    ensures
        spec_params_view(r.params@) == spec_signing_params(
            timestamp@,
            match options.folder {
                Some(f) => Some(f@),
                None => None,
            },
            match options.public_id {
                Some(p) => Some(p@),
                None => None,
            },
            match options.transformation {
                Some(t) => Some(t@),
                None => None,
            },
        ),
        r.signature@ == spec_signature(spec_params_view(r.params@), api_secret@),
{
    let params = signing_params(
        timestamp,
        options.folder,
        options.public_id,
        options.transformation,
    );
    let signature = signature_for(&params, api_secret);
    SignedUpload { params, signature }
}

} // verus!
