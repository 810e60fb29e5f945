//! What holds of normalisation as a whole.
use vstd::prelude::*;
use crate::coerce::all_of;
use crate::coerce::first_failure;
use crate::coerce::flag_of;
use crate::coerce::whole_number;
use crate::error::Error;
use crate::error::Field;
use crate::json::lookup_from;
use crate::json::Numeral;
use crate::json::Tree;
use crate::object::object_of;
use crate::points::integer_numeral;
use crate::points::lemma_digits_of;
use crate::round::rounded;
use crate::text::integer_in;
use crate::tileset::animation_of;
use crate::tileset::frames_of;
use crate::tileset::image_of;
use crate::tileset::optional_image_of;
use crate::tileset::wrapped_frames_of;
use crate::tileset::ImageModel;

verus! {

/// A whole number of a document that fits its field is coerced to itself.
pub proof fn lemma_whole_number_unchanged(n: int, lo: int, hi: int)
    requires
        lo <= n <= hi,
    ensures
        whole_number(Tree::Number(Numeral::Int(n)), lo, hi) == Some(n),
{
}

/// A whole number of a document that is an `i32` is rounded to itself.
pub proof fn lemma_rounded_unchanged(n: int)
    requires
        i32::MIN <= n <= i32::MAX,
    ensures
        rounded(Tree::Number(Numeral::Int(n))) == Some(n),
{
}

/// A boolean of a document is coerced to itself.
pub proof fn lemma_boolean_unchanged(b: bool)
    ensures
        flag_of(Tree::Bool(b)) == Some(b),
{
}

/// Of the texts, `true` and `1` are true and `false` and `0` are false, in
/// small and in capital letters; a text of letters that spells neither word,
/// as `maybe` does, is no boolean.
pub proof fn lemma_boolean_spellings()
    ensures
        flag_of(Tree::Text("1"@)) == Some(true),
        flag_of(Tree::Text("true"@)) == Some(true),
        flag_of(Tree::Text("TRUE"@)) == Some(true),
        flag_of(Tree::Text("0"@)) == Some(false),
        flag_of(Tree::Text("false"@)) == Some(false),
        flag_of(Tree::Text("maybe"@)) is None,
{
    reveal_strlit("1");
    reveal_strlit("0");
    reveal_strlit("true");
    reveal_strlit("TRUE");
    reveal_strlit("false");
    reveal_strlit("maybe");
    assert("1"@ != "0"@) by {
        assert("1"@[0] == '1');
        assert("0"@[0] == '0');
    }
    assert("true"@.len() == 4 && "TRUE"@.len() == 4 && "false"@.len() == 5 && "maybe"@.len() == 5);
    assert(!crate::coerce::spells("maybe"@, "false"@)) by {
        assert("maybe"@[0] == 'm');
        assert("false"@[0] == 'f');
    }
    assert(crate::coerce::spells("TRUE"@, "true"@)) by {
        assert("TRUE"@[0] == 'T' && "TRUE"@[1] == 'R' && "TRUE"@[2] == 'U' && "TRUE"@[3] == 'E');
        assert("true"@[0] == 't' && "true"@[1] == 'r' && "true"@[2] == 'u' && "true"@[3] == 'e');
    }
    assert(!crate::coerce::spells("false"@, "true"@));
    assert(crate::coerce::all_letters("true"@));
    assert(crate::coerce::all_letters("TRUE"@));
    assert(crate::coerce::all_letters("false"@));
    assert(crate::coerce::all_letters("maybe"@));
}

/// A whole number is read the same from its decimal numeral as from the
/// number itself.
pub proof fn lemma_number_as_text(n: int, lo: int, hi: int)
    requires
        lo <= n <= hi,
    ensures
        whole_number(Tree::Text(integer_numeral(n)), lo, hi) == Some(n),
        whole_number(Tree::Text(integer_numeral(n)), lo, hi) == whole_number(
            Tree::Number(Numeral::Int(n)),
            lo,
            hi,
        ),
{
    let s = integer_numeral(n);
    let magnitude = (if n < 0 { -n } else { n }) as nat;
    let digits = crate::points::digits_of(magnitude);
    lemma_digits_of(magnitude);
    assert(crate::text::is_digit(digits[0]));
    let body = if n < 0 { s.skip(1) } else { s };
    assert(body =~= digits);
    assert(integer_in(s, lo, hi) == Some(n));
}

/// Where all of `results` hold a value, so does their whole.
pub proof fn lemma_all_of_ok<T>(results: Seq<Result<T, Error>>, from: int)
    requires
        0 <= from <= results.len(),
        forall|i: int| 0 <= i < results.len() ==> (#[trigger] results[i]) is Ok,
    ensures
        first_failure(results, from) is None,
    decreases results.len() - from,
{
    if from < results.len() {
        assert(results[from] is Ok);
        lemma_all_of_ok(results, from + 1);
    }
}

/// Of animation records, each holding frames of its own, the frames of the
/// first are the animation and the others are dropped; for every array that
/// is not one of frames already.
pub proof fn lemma_first_animation_wins(items: Seq<Tree>)
    requires
        items.len() > 0,
        frames_of(Tree::Array(items)) is Err,
        forall|i: int| 0 <= i < items.len() ==> (#[trigger] wrapped_frames_of(items[i])) is Ok,
    ensures
        animation_of(Some(Tree::Array(items))) == Ok::<_, Error>(
            wrapped_frames_of(items[0])->Ok_0,
        ),
{
    let results = Seq::new(items.len(), |i: int| wrapped_frames_of(items[i]));
    assert forall|i: int| 0 <= i < results.len() implies (#[trigger] results[i]) is Ok by {
        assert(wrapped_frames_of(items[i]) is Ok);
    }
    lemma_all_of_ok(results, 0);
    assert(all_of(results) is Ok);
    assert(all_of(results)->Ok_0[0] == results[0]->Ok_0);
}

/// The record whose `image` wraps the attributes of an image in a container.
pub open spec fn wrapped_image_record(m: ImageModel) -> Tree {
    let colour = match m.transparent_color {
        Some(c) => seq![("trans"@, Tree::Text(c))],
        None => Seq::empty(),
    };
    let attributes = seq![
        ("source"@, Tree::Text(m.source)),
        ("width"@, Tree::Number(Numeral::Int(m.width))),
        ("height"@, Tree::Number(Numeral::Int(m.height))),
    ] + colour;
    Tree::Object(seq![("image"@, Tree::Array(seq![Tree::Object(attributes)]))])
}

/// The record that holds an image in flat fields.
pub open spec fn flat_image_record(m: ImageModel) -> Tree {
    let colour = match m.transparent_color {
        Some(c) => seq![("transparentcolor"@, Tree::Text(c))],
        None => Seq::empty(),
    };
    Tree::Object(
        seq![
            ("image"@, Tree::Text(m.source)),
            ("imagewidth"@, Tree::Number(Numeral::Int(m.width))),
            ("imageheight"@, Tree::Number(Numeral::Int(m.height))),
        ] + colour,
    )
}

/// Both shapes of an image give the same image: the one whose attributes
/// they hold.
pub proof fn lemma_image_shapes_agree(m: ImageModel)
    requires
        0 <= m.width <= u32::MAX,
        0 <= m.height <= u32::MAX,
    ensures
        image_of(wrapped_image_record(m)) == Ok::<_, Error>(m),
        image_of(flat_image_record(m)) == Ok::<_, Error>(m),
{
    reveal_strlit("image");
    reveal_strlit("source");
    reveal_strlit("trans");
    reveal_strlit("width");
    reveal_strlit("height");
    reveal_strlit("imagewidth");
    reveal_strlit("imageheight");
    reveal_strlit("transparentcolor");
    reveal_with_fuel(lookup_from, 5);
    reveal_with_fuel(first_failure, 3);
    let colour = match m.transparent_color {
        Some(c) => seq![("trans"@, Tree::Text(c))],
        None => Seq::empty(),
    };
    let attributes = seq![
        ("source"@, Tree::Text(m.source)),
        ("width"@, Tree::Number(Numeral::Int(m.width))),
        ("height"@, Tree::Number(Numeral::Int(m.height))),
    ] + colour;
    let item = Tree::Object(attributes);
    assert("source"@ != "trans"@ && "source"@ != "width"@ && "source"@ != "height"@) by {
        assert("source"@[0] == 's');
        assert("trans"@[0] == 't');
        assert("width"@[0] == 'w');
        assert("height"@[0] == 'h');
    }
    assert("width"@ != "trans"@ && "width"@ != "height"@ && "height"@ != "trans"@) by {
        assert("trans"@[0] == 't');
        assert("width"@[0] == 'w');
        assert("height"@[0] == 'h');
    }
    assert(item.get("source"@) == Some(Tree::Text(m.source)));
    assert(item.get("width"@) == Some(Tree::Number(Numeral::Int(m.width))));
    assert(item.get("height"@) == Some(Tree::Number(Numeral::Int(m.height))));
    assert(item.get("trans"@) == match m.transparent_color {
        Some(c) => Some(Tree::Text(c)),
        None => None,
    });
    assert(crate::tileset::wrapped_image_of(item) == Ok::<_, Error>(m));
    let items = seq![item];
    let results = Seq::new(items.len(), |i: int| crate::tileset::wrapped_image_of(items[i]));
    assert(results[0] == Ok::<ImageModel, Error>(m));
    assert(all_of(results) is Ok);
    assert(all_of(results)->Ok_0[0] == m);
    let wrapped = wrapped_image_record(m);
    assert(wrapped.get("image"@) == Some(Tree::Array(items)));

    let flat = flat_image_record(m);
    assert("image"@ != "imagewidth"@ && "image"@ != "imageheight"@ && "image"@
        != "transparentcolor"@) by {
        assert("image"@.len() == 5);
        assert("imagewidth"@.len() == 10);
        assert("imageheight"@.len() == 11);
        assert("transparentcolor"@.len() == 16);
    }
    assert("imagewidth"@ != "imageheight"@ && "imagewidth"@ != "transparentcolor"@
        && "imageheight"@ != "transparentcolor"@) by {
        assert("imagewidth"@.len() == 10);
        assert("imageheight"@.len() == 11);
        assert("transparentcolor"@.len() == 16);
    }
    assert(flat.get("image"@) == Some(Tree::Text(m.source)));
    assert(flat.get("imagewidth"@) == Some(Tree::Number(Numeral::Int(m.width))));
    assert(flat.get("imageheight"@) == Some(Tree::Number(Numeral::Int(m.height))));
    assert(flat.get("transparentcolor"@) == match m.transparent_color {
        Some(c) => Some(Tree::Text(c)),
        None => None,
    });
    assert(crate::tileset::flat_image_of(flat, m.source) == Ok::<_, Error>(m));
}

/// An object whose record gives no `visible`, `width` or `height` is visible
/// and has neither width nor height.
pub proof fn lemma_object_defaults(t: Tree)
    requires
        t.get("visible"@) is None,
        t.get("width"@) is None,
        t.get("height"@) is None,
        object_of(t) is Ok,
    ensures
        object_of(t)->Ok_0.visible,
        object_of(t)->Ok_0.width == 0,
        object_of(t)->Ok_0.height == 0,
{
}

/// An empty container of images is an error, never a missing image.
pub proof fn lemma_empty_image_container_fails(t: Tree)
    requires
        t.get("image"@) == Some(Tree::Array(Seq::empty())),
    ensures
        image_of(t) == Err::<ImageModel, Error>(Error::Deserialization(Field::Image)),
        optional_image_of(t) == Err::<Option<ImageModel>, Error>(
            Error::Deserialization(Field::Image),
        ),
{
}

} // verus!
