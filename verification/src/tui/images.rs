//! Images in a prompt: where they are named, and how they are handed to a model.
use crate::agent::web::{first_at, lemma_first_at};
use crate::backend::wire::{image_part, law_images_survive, sendable, PartView};
use crate::outside::{base64_encode, base64_of, lowercase, to_lowercase};
use crate::text::{
    chars_of, find, find_from, lemma_find_from, lemma_views_push, occurs_at, same, trim,
    trimmed_between, views,
};
use vstd::prelude::*;
use vstd::string::*;

verus! {

/// The paths of the images that a text names from position `pos` on, as `![..](path)`. A mark
/// that is not completed is passed over.
pub open spec fn references_from(s: Seq<char>, pos: nat) -> Seq<Seq<char>>
    decreases s.len() + 1 - pos,
{
    match find_from(s, "!["@, pos) {
        None => Seq::empty(),
        Some(start) => {
            proof {
                lemma_find_from(s, "!["@, pos);
                reveal_strlit("![");
            }
            match find_from(s, "]("@, start) {
                None => references_from(s, start + 2),
                Some(open) => {
                    proof {
                        lemma_find_from(s, "]("@, start);
                        reveal_strlit("](");
                        lemma_find_from(s, ")"@, open + 2);
                        reveal_strlit(")");
                    }
                    match find_from(s, ")"@, open + 2) {
                        None => references_from(s, start + 2),
                        Some(close) => seq![trim(s.subrange(open as int + 2, close as int))]
                            + references_from(s, close + 1),
                    }
                },
            }
        },
    }
}

/// The paths of the images that a text names.
pub open spec fn references(s: Seq<char>) -> Seq<Seq<char>> {
    references_from(s, 0)
}

/// The paths of the images that a text names.
pub fn image_references(text: &str) -> (r: Vec<String>)
    ensures
        views(r@) == references(text@),
{
    let s = chars_of(text);
    let mut paths: Vec<String> = Vec::new();
    let mut pos: usize = 0;
    proof {
        reveal_strlit("![");
        reveal_strlit("](");
        reveal_strlit(")");
    }
    assert(views(paths@) + references_from(s@, 0) =~= references_from(s@, 0));
    loop
        invariant
            s@ == text@,
            "!["@.len() == 2,
            "]("@.len() == 2,
            ")"@.len() == 1,
            pos <= s.len(),
            views(paths@) + references_from(s@, pos as nat) == references(text@),
        decreases s.len() - pos,
    {
        let ghost before = views(paths@);
        assert(before + Seq::<Seq<char>>::empty() =~= before);
        let start = match find(s.as_slice(), "![", pos) {
            Some(i) => i,
            None => {
                return paths;
            },
        };
        let open = match find(s.as_slice(), "](", start) {
            Some(i) => i,
            None => {
                pos = start + 2;
                continue;
            },
        };
        let close = match find(s.as_slice(), ")", open + 2) {
            Some(i) => i,
            None => {
                pos = start + 2;
                continue;
            },
        };
        let path = trimmed_between(s.as_slice(), open + 2, close);
        proof {
            lemma_views_push(paths@, path);
        }
        paths.push(path);
        assert(before + (seq![path@] + references_from(s@, (close + 1) as nat)) =~= before.push(
            path@,
        ) + references_from(s@, (close + 1) as nat));
        pos = close + 1;
    }
}

/// The media type for the extension of a file, in lower case; any other image counts as PNG.
pub open spec fn media_type(ext: Seq<char>) -> Seq<char> {
    if ext == "jpg"@ || ext == "jpeg"@ {
        "image/jpeg"@
    } else if ext == "gif"@ {
        "image/gif"@
    } else if ext == "webp"@ {
        "image/webp"@
    } else {
        "image/png"@
    }
}

/// The media type for the extension of a file, in lower case.
pub fn media_type_of(ext: &str) -> (r: &'static str)
    ensures
        r@ == media_type(ext@),
{
    if same(ext, "jpg") || same(ext, "jpeg") {
        "image/jpeg"
    } else if same(ext, "gif") {
        "image/gif"
    } else if same(ext, "webp") {
        "image/webp"
    } else {
        "image/png"
    }
}

/// The data URI of an image file, from the extension of its name and its bytes. A file without an
/// extension counts as PNG.
pub fn data_uri(extension: Option<&str>, bytes: &[u8]) -> (r: String)
    requires
        bytes@.len() <= usize::MAX / 4,
    ensures
        r@ == "data:"@ + media_type(
            lowercase(
                match extension {
                    Some(e) => e@,
                    None => "png"@,
                },
            ),
        ) + ";base64,"@ + base64_of(bytes@),
{
    let ext = match extension {
        Some(e) => to_lowercase(e),
        None => to_lowercase("png"),
    };
    let mut uri = String::from_str("data:");
    uri.append(media_type_of(ext.as_str()));
    uri.append(";base64,");
    let data = base64_encode(bytes);
    uri.append(data.as_str());
    uri
}

/// An image that goes with a prompt can be sent, and arrives with its type and its bytes.
pub proof fn law_attached_images_arrive(ext: Seq<char>, bytes: Seq<u8>)
    ensures
        ({
            let image = "data:"@ + media_type(ext) + ";base64,"@ + base64_of(bytes);
            &&& sendable(image)
            &&& image_part(image) == Some(
                PartView::Image { media_type: media_type(ext), data: base64_of(bytes) },
            )
        }),
{
    reveal_strlit("image/jpeg");
    reveal_strlit("image/gif");
    reveal_strlit("image/webp");
    reveal_strlit("image/png");
    law_images_survive(media_type(ext), base64_of(bytes));
}

/// The longest side that an image keeps.
pub const MAX_SIDE: u32 = 1024;

/// Whether an image is made smaller before it is stored.
pub fn is_downscaled(width: u32, height: u32) -> (r: bool)
    ensures
        r == (width > 1024 || height > 1024),
{
    width > MAX_SIDE || height > MAX_SIDE
}

/// The name of the file for an image that was pasted at the given time.
pub fn pasted_name(timestamp: &str) -> (r: String)
    ensures
        r@ == "pasted_"@ + timestamp@ + ".png"@,
{
    let mut name = String::from_str("pasted_");
    name.append(timestamp);
    name.append(".png");
    name
}

/// How the next image is found. Its mark stands at `start`, and its path between the brackets at `open`
/// and `close`, without white space at its ends. Reading goes on behind it.
pub proof fn law_next_reference(s: Seq<char>, pos: nat, start: int, open: int, close: int)
    requires
        first_at(s, "!["@, pos as int, start),
        first_at(s, "]("@, start, open),
        first_at(s, ")"@, open + 2, close),
    ensures
        references_from(s, pos) == seq![trim(s.subrange(open + 2, close))] + references_from(
            s,
            (close + 1) as nat,
        ),
{
    lemma_first_at(s, "!["@, pos, start);
    lemma_first_at(s, "]("@, start as nat, open);
    lemma_first_at(s, ")"@, (open + 2) as nat, close);
}

/// Without a mark there is no image, and a mark without brackets behind it is passed over. All images of
/// a text count, from its beginning on.
pub proof fn law_no_reference(s: Seq<char>, pos: nat, start: int)
    ensures
        (forall|j: int| pos <= j ==> !occurs_at(s, "!["@, j)) ==> references_from(s, pos) == Seq::<
            Seq<char>,
        >::empty(),
        first_at(s, "!["@, pos as int, start) && ((forall|j: int|
            start <= j ==> !occurs_at(s, "]("@, j)) || (forall|j: int|
            start <= j ==> !occurs_at(s, ")"@, j))) ==> references_from(s, pos) == references_from(
            s,
            (start + 2) as nat,
        ),
        references(s) == references_from(s, 0),
{
    lemma_find_from(s, "!["@, pos);
    if first_at(s, "!["@, pos as int, start) {
        lemma_first_at(s, "!["@, pos, start);
        lemma_find_from(s, "]("@, start as nat);
        match find_from(s, "]("@, start as nat) {
            Some(open) => {
                lemma_find_from(s, ")"@, open + 2);
            },
            None => {},
        }
    }
}

/// The media types of images.
pub proof fn law_media_types(ext: Seq<char>)
    ensures
        media_type("jpg"@) == "image/jpeg"@,
        media_type("jpeg"@) == "image/jpeg"@,
        media_type("gif"@) == "image/gif"@,
        media_type("webp"@) == "image/webp"@,
        ext != "jpg"@ && ext != "jpeg"@ && ext != "gif"@ && ext != "webp"@ ==> media_type(ext)
            == "image/png"@,
{
    reveal_strlit("jpg");
    reveal_strlit("jpeg");
    reveal_strlit("gif");
    reveal_strlit("webp");
    assert("jpg"@.len() == 3 && "gif"@.len() == 3 && "jpeg"@.len() == 4 && "webp"@.len() == 4);
    assert("jpg"@[0] == 'j' && "gif"@[0] == 'g' && "jpeg"@[0] == 'j' && "webp"@[0] == 'w');
}

} // verus!
