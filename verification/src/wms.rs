//! Web Mapping Service support: the service metadata records that a
//! capability document yields, and the verified pieces of request
//! assembly and response handling.  Issuing the HTTP requests, streaming
//! response bodies and decoding XML are callers' work; the functions here
//! are the decisions and computations those callers delegate.

use vstd::prelude::*;

verus! {

/// The result record of a feature-info request.  The realized service
/// support does not fill it yet.
#[derive(Clone, Debug, PartialEq)]
pub struct GetFeatureInfo {}

impl Default for GetFeatureInfo {
    fn default() -> (r: GetFeatureInfo)
        ensures
            r == (GetFeatureInfo {  }),
    {
        GetFeatureInfo {  }
    }
}

/// General service metadata from a capability document.
#[derive(Clone, Debug, PartialEq)]
pub struct Service {
    pub abstr: String,
    pub name: String,
    pub title: String,
    pub max_width: Option<u32>,
    pub max_height: Option<u32>,
}

impl Default for Service {
    fn default() -> (r: Service)
        ensures
            r.abstr@ == Seq::<char>::empty(),
            r.name@ == Seq::<char>::empty(),
            r.title@ == Seq::<char>::empty(),
            r.max_width is None,
            r.max_height is None,
    {
        Service {
            abstr: String::new(),
            name: String::new(),
            title: String::new(),
            max_width: None,
            max_height: None,
        }
    }
}

/// The comma-separated join of a sequence of strings.
pub open spec fn csv_of(items: Seq<Seq<char>>) -> Seq<char>
    decreases items.len(),
{
    if items.len() == 0 {
        Seq::empty()
    } else if items.len() == 1 {
        items[0]
    } else {
        items[0] + seq![','] + csv_of(items.skip(1))
    }
}

/// `csv_of` grows at the back one item and one comma at a time.
pub proof fn lemma_csv_of_snoc(items: Seq<Seq<char>>)
    requires
        items.len() >= 2,
    ensures
        csv_of(items) == csv_of(items.drop_last()) + seq![','] + items.last(),
    decreases items.len(),
{
    if items.len() == 2 {
        assert(csv_of(items.skip(1)) == items.skip(1)[0]);
        assert(items.skip(1)[0] == items[1]);
        assert(csv_of(items.drop_last()) == items.drop_last()[0]);
        assert(items.drop_last()[0] == items[0]);
    } else {
        lemma_csv_of_snoc(items.skip(1));
        assert(items.skip(1).drop_last() =~= items.drop_last().skip(1));
        assert(csv_of(items.drop_last()) == items.drop_last()[0] + seq![','] + csv_of(
            items.drop_last().skip(1),
        ));
        assert(items.drop_last()[0] == items[0]);
        assert(items.skip(1).last() == items.last());
        assert(items[0] + seq![','] + (csv_of(items.drop_last().skip(1)) + seq![',']
            + items.last()) =~= (items[0] + seq![','] + csv_of(items.drop_last().skip(1)))
            + seq![','] + items.last());
    }
}

/// The LAYERS request parameter: the requested layer names joined with
/// commas.  At least one layer must be requested.
pub fn layers_to_csv(layers: &Vec<String>) -> (r: String)
    requires
        layers@.len() >= 1,
    ensures
        r@ == csv_of(layers.deep_view()),
{
    let ghost views = layers.deep_view();
    let mut r = String::new();
    let mut i: usize = 0;
    while i < layers.len()
        invariant
            i <= layers@.len(),
            views == layers.deep_view(),
            views.len() == layers@.len(),
            r@ == csv_of(views.take(i as int)),
        decreases layers@.len() - i,
    {
        if i > 0 {
            r.append(",");
            proof {
                reveal_strlit(",");
            }
        }
        r.append(layers[i].as_str());
        proof {
            assert(views.take(i + 1).drop_last() =~= views.take(i as int));
            assert(views.take(i + 1).last() == layers@[i as int]@);
            if i > 0 {
                lemma_csv_of_snoc(views.take(i + 1));
            } else {
                assert(csv_of(views.take(1)) == views.take(1)[0]);
            }
        }
        i = i + 1;
    }
    proof {
        assert(views.take(layers@.len() as int) =~= views);
    }
    r
}

/// The STYLES request parameter.  With no styles it is empty; otherwise it
/// names only the first requested style.
pub fn styles_to_csv(styles: &Vec<String>) -> (r: String)
    ensures
        r@ == if styles@.len() == 0 {
            Seq::<char>::empty()
        } else {
            styles@[0]@
        },
{
    if styles.len() == 0 {
        String::new()
    } else {
        styles[0].clone()
    }
}

/// `s` begins with `p`.
pub open spec fn seq_starts_with(s: Seq<char>, p: Seq<char>) -> bool {
    s.len() >= p.len() && s.subrange(0, p.len() as int) == p
}

/// `p` occurs somewhere in `s`.
pub open spec fn seq_contains(s: Seq<char>, p: Seq<char>) -> bool {
    exists|i: int|
        0 <= i && i + p.len() <= s.len() && #[trigger] s.subrange(i, i + p.len()) == p
}

/// What a map request should do with the response it got.
#[derive(Clone, Copy, Debug, PartialEq, Eq, Structural)]
pub enum GetMapDisposition {
    /// Stream the body: it is the requested image (or, with no declared
    /// content type, the best guess is that it is).
    StreamImage,
    /// The body is a service exception report; read it as text.
    ExceptionReport,
    /// The declared content type is neither an image nor an exception
    /// report.
    UnsupportedContentType,
    /// The response status was not OK; read the body as exception text.
    ErrorStatus,
}

/// The media-type prefix that marks an image response.
pub open spec fn image_prefix() -> Seq<char> {
    seq!['i', 'm', 'a', 'g', 'e']
}

/// The media-type fragment that marks an XML exception report.
pub open spec fn xml_fragment() -> Seq<char> {
    seq!['/', 'x', 'm', 'l']
}

/// How a map response is to be treated, from its status and declared
/// content type alone.
pub open spec fn spec_disposition(status_ok: bool, content_type: Option<Seq<char>>)
    -> GetMapDisposition {
    if !status_ok {
        GetMapDisposition::ErrorStatus
    } else {
        match content_type {
            None => GetMapDisposition::StreamImage,
            Some(ct) => {
                if seq_starts_with(ct, image_prefix()) {
                    GetMapDisposition::StreamImage
                } else if seq_contains(ct, xml_fragment()) {
                    GetMapDisposition::ExceptionReport
                } else {
                    GetMapDisposition::UnsupportedContentType
                }
            },
        }
    }
}

/// `s` begins with `image`.
fn starts_with_image(s: &str) -> (r: bool)
    ensures
        r == seq_starts_with(s@, image_prefix()),
{
    let n = s.unicode_len();
    if n < 5 {
        assert(!seq_starts_with(s@, image_prefix()));
        false
    } else {
        let r = s.get_char(0) == 'i' && s.get_char(1) == 'm' && s.get_char(2) == 'a'
            && s.get_char(3) == 'g' && s.get_char(4) == 'e';
        proof {
            if r {
                assert(s@.subrange(0, 5) =~= image_prefix());
            } else {
                assert(s@.subrange(0, 5) != image_prefix()) by {
                    if s@.subrange(0, 5) == image_prefix() {
                        assert(s@.subrange(0, 5)[0] == 'i');
                        assert(s@.subrange(0, 5)[1] == 'm');
                        assert(s@.subrange(0, 5)[2] == 'a');
                        assert(s@.subrange(0, 5)[3] == 'g');
                        assert(s@.subrange(0, 5)[4] == 'e');
                    }
                }
            }
        }
        r
    }
}

/// `s` holds `/xml` somewhere.
fn contains_xml(s: &str) -> (r: bool)
    ensures
        r == seq_contains(s@, xml_fragment()),
{
    let n = s.unicode_len();
    if n < 4 {
        return false;
    }
    let mut i: usize = 0;
    while i <= n - 4
        invariant
            4 <= n == s@.len(),
            i <= n - 3,
            forall|k: int| 0 <= k < i ==> #[trigger] s@.subrange(k, k + 4) != xml_fragment(),
        decreases n - i,
    {
        let hit = s.get_char(i) == '/' && s.get_char(i + 1) == 'x' && s.get_char(i + 2) == 'm'
            && s.get_char(i + 3) == 'l';
        proof {
            if hit {
                assert(s@.subrange(i as int, i + 4) =~= xml_fragment());
            } else {
                assert(s@.subrange(i as int, i + 4) != xml_fragment()) by {
                    if s@.subrange(i as int, i + 4) == xml_fragment() {
                        assert(s@.subrange(i as int, i + 4)[0] == '/');
                        assert(s@.subrange(i as int, i + 4)[1] == 'x');
                        assert(s@.subrange(i as int, i + 4)[2] == 'm');
                        assert(s@.subrange(i as int, i + 4)[3] == 'l');
                    }
                }
            }
        }
        if hit {
            return true;
        }
        i = i + 1;
    }
    proof {
        assert(!seq_contains(s@, xml_fragment())) by {
            if seq_contains(s@, xml_fragment()) {
                let w = choose|k: int|
                    0 <= k && k + 4 <= s@.len() && #[trigger] s@.subrange(k, k + 4)
                        == xml_fragment();
                assert(s@.subrange(w, w + 4) != xml_fragment());
            }
        }
    }
    false
}

/// Decide what to do with a map response, from its status and its declared
/// content type.  Every response gets a disposition; none aborts.
pub fn classify_get_map_response(status_ok: bool, content_type: Option<&str>) -> (r:
    GetMapDisposition)
    ensures
        r == spec_disposition(
            status_ok,
            match content_type {
                Some(ct) => Some(ct@),
                None => None,
            },
        ),
{
    if !status_ok {
        GetMapDisposition::ErrorStatus
    } else {
        match content_type {
            None => GetMapDisposition::StreamImage,
            Some(ct) => {
                if starts_with_image(ct) {
                    GetMapDisposition::StreamImage
                } else if contains_xml(ct) {
                    GetMapDisposition::ExceptionReport
                } else {
                    GetMapDisposition::UnsupportedContentType
                }
            },
        }
    }
}

} // verus!
