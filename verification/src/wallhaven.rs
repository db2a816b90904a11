//! What the catalog describes: a wallpaper and its thumbnails, one page of
//! search results, and the file name that identifies a wallpaper on disk
//! and in the record store.

use vstd::prelude::*;
use vstd::string::*;
use crate::text::{last_segment, last_segment_of};

verus! {

/// The three thumbnail addresses of a wallpaper.
#[derive(Debug, PartialEq, Clone)]
pub struct Thumbs {
    pub large: String,
    pub original: String,
    pub small: String,
}

/// A `Thumbs` as plain text.
pub struct ThumbsView {
    pub large: Seq<char>,
    pub original: Seq<char>,
    pub small: Seq<char>,
}

impl View for Thumbs {
    type V = ThumbsView;

    open spec fn view(&self) -> ThumbsView {
        ThumbsView { large: self.large@, original: self.original@, small: self.small@ }
    }
}

/// One image of the catalog.
#[derive(Debug, PartialEq, Clone)]
pub struct Wallpaper {
    pub id: String,
    pub url: String,
    pub short_url: String,
    pub views: u32,
    pub favorites: u32,
    pub source: String,
    pub purity: String,
    pub category: String,
    pub dimension_x: u32,
    pub dimension_y: u32,
    pub resolution: String,
    pub ratio: String,
    pub file_size: u32,
    pub file_type: String,
    pub created_at: String,
    pub colors: Vec<String>,
    pub path: String,
    pub thumbs: Thumbs,
}

/// A `Wallpaper` as plain values, field by field; the colors keep their order.
pub struct WallpaperView {
    pub id: Seq<char>,
    pub url: Seq<char>,
    pub short_url: Seq<char>,
    pub views: u32,
    pub favorites: u32,
    pub source: Seq<char>,
    pub purity: Seq<char>,
    pub category: Seq<char>,
    pub dimension_x: u32,
    pub dimension_y: u32,
    pub resolution: Seq<char>,
    pub ratio: Seq<char>,
    pub file_size: u32,
    pub file_type: Seq<char>,
    pub created_at: Seq<char>,
    pub colors: Seq<Seq<char>>,
    pub path: Seq<char>,
    pub thumbs: ThumbsView,
}

impl View for Wallpaper {
    type V = WallpaperView;

    open spec fn view(&self) -> WallpaperView {
        WallpaperView {
            id: self.id@,
            url: self.url@,
            short_url: self.short_url@,
            views: self.views,
            favorites: self.favorites,
            source: self.source@,
            purity: self.purity@,
            category: self.category@,
            dimension_x: self.dimension_x,
            dimension_y: self.dimension_y,
            resolution: self.resolution@,
            ratio: self.ratio@,
            file_size: self.file_size,
            file_type: self.file_type@,
            created_at: self.created_at@,
            colors: self.colors.deep_view(),
            path: self.path@,
            thumbs: self.thumbs@,
        }
    }
}

/// The wallpapers of a list as plain values, in the list's order.
pub open spec fn views_of(items: Seq<Wallpaper>) -> Seq<WallpaperView> {
    items.map_values(|w: Wallpaper| w@)
}

/// The file name made of an identifier, a resolution and a file type:
/// `wallhaven-`, the identifier, `-`, the resolution, `.`, and what follows
/// the last `/` of the file type.
pub open spec fn file_name_of(id: Seq<char>, resolution: Seq<char>, file_type: Seq<char>) -> Seq<
    char,
> {
    "wallhaven-"@ + id + seq!['-'] + resolution + seq!['.'] + last_segment(file_type, '/')
}

impl WallpaperView {
    /// The name under which the wallpaper is recorded and saved.
    pub open spec fn file_name(self) -> Seq<char> {
        file_name_of(self.id, self.resolution, self.file_type)
    }

    /// Whether the wallpaper is classed as safe for work.
    pub open spec fn is_sfw(self) -> bool {
        self.purity == "sfw"@
    }
}

impl Wallpaper {
    /// The name under which the wallpaper is recorded and saved. It depends
    /// on the identifier, the resolution and the file type alone.
    pub fn file_name(&self) -> (name: String)
        ensures
            name@ == self@.file_name(),
    {
        let extension = last_segment_of(self.file_type.as_str(), '/');
        let mut name = "wallhaven-".to_owned();
        name.append(self.id.as_str());
        proof {
            reveal_strlit("-");
            reveal_strlit(".");
        }
        name.append("-");
        name.append(self.resolution.as_str());
        name.append(".");
        name.append(extension.as_str());
        assert(name@ =~= self@.file_name());
        name
    }

    /// Whether the wallpaper is classed as safe for work.
    pub fn is_sfw(&self) -> (r: bool)
        ensures
            r == self@.is_sfw(),
    {
        let sfw = "sfw".to_owned();
        self.purity == sfw
    }
}

/// Two texts cut at their first `sep` agree part by part when they agree as a whole.
proof fn lemma_cut_at_first(a1: Seq<char>, b1: Seq<char>, a2: Seq<char>, b2: Seq<char>, sep: char)
    requires
        a1 + seq![sep] + b1 == a2 + seq![sep] + b2,
        !a1.contains(sep),
        !a2.contains(sep),
    ensures
        a1 == a2,
        b1 == b2,
{
    let l = a1 + seq![sep] + b1;
    let r = a2 + seq![sep] + b2;
    if a1.len() < a2.len() {
        assert(l[a1.len() as int] == sep);
        assert(r[a1.len() as int] == a2[a1.len() as int]);
        assert(a2.contains(sep));
    }
    if a2.len() < a1.len() {
        assert(r[a2.len() as int] == sep);
        assert(l[a2.len() as int] == a1[a2.len() as int]);
        assert(a1.contains(sep));
    }
    assert(a1 =~= l.subrange(0, a1.len() as int));
    assert(a2 =~= r.subrange(0, a2.len() as int));
    assert(b1 =~= l.subrange(a1.len() as int + 1, l.len() as int));
    assert(b2 =~= r.subrange(a2.len() as int + 1, r.len() as int));
}

/// Two texts cut at their last `sep` agree part by part when they agree as a whole.
proof fn lemma_cut_at_last(a1: Seq<char>, b1: Seq<char>, a2: Seq<char>, b2: Seq<char>, sep: char)
    requires
        a1 + seq![sep] + b1 == a2 + seq![sep] + b2,
        !b1.contains(sep),
        !b2.contains(sep),
    ensures
        a1 == a2,
        b1 == b2,
{
    let l = a1 + seq![sep] + b1;
    let r = a2 + seq![sep] + b2;
    assert(l.len() == r.len());
    if b1.len() < b2.len() {
        let at = l.len() - b1.len() - 1;
        assert(l[at] == sep);
        assert(r[at] == b2[at - a2.len() - 1]);
        assert(b2.contains(sep));
    }
    if b2.len() < b1.len() {
        let at = r.len() - b2.len() - 1;
        assert(r[at] == sep);
        assert(l[at] == b1[at - a1.len() - 1]);
        assert(b1.contains(sep));
    }
    assert(a1 =~= l.subrange(0, a1.len() as int));
    assert(a2 =~= r.subrange(0, a2.len() as int));
    assert(b1 =~= l.subrange(a1.len() as int + 1, l.len() as int));
    assert(b2 =~= r.subrange(a2.len() as int + 1, r.len() as int));
}

/// Wallpapers that agree in identifier, resolution and file type have the
/// same file name, whatever their thumbnails and other fields hold.
pub proof fn lemma_file_name_ignores_the_rest(a: WallpaperView, b: WallpaperView)
    requires
        a.id == b.id,
        a.resolution == b.resolution,
        a.file_type == b.file_type,
    ensures
        a.file_name() == b.file_name(),
{
}

/// Where no identifier holds a `-` and no extension a `.`, two wallpapers
/// have the same file name exactly when they agree in identifier, resolution
/// and extension (what follows the last `/` of the file type).
pub proof fn lemma_file_name_tells_apart(a: WallpaperView, b: WallpaperView)
    requires
        !a.id.contains('-'),
        !b.id.contains('-'),
        !last_segment(a.file_type, '/').contains('.'),
        !last_segment(b.file_type, '/').contains('.'),
    ensures
        a.file_name() == b.file_name() <==> a.id == b.id && a.resolution == b.resolution
            && last_segment(a.file_type, '/') == last_segment(b.file_type, '/'),
{
    let head = "wallhaven-"@;
    let ea = last_segment(a.file_type, '/');
    let eb = last_segment(b.file_type, '/');
    let ta = a.resolution + seq!['.'] + ea;
    let tb = b.resolution + seq!['.'] + eb;
    if a.file_name() == b.file_name() {
        let la = a.id + seq!['-'] + ta;
        let lb = b.id + seq!['-'] + tb;
        assert(a.file_name() =~= head + la);
        assert(b.file_name() =~= head + lb);
        assert(la =~= (head + la).subrange(head.len() as int, (head + la).len() as int));
        assert(lb =~= (head + lb).subrange(head.len() as int, (head + lb).len() as int));
        lemma_cut_at_first(a.id, ta, b.id, tb, '-');
        lemma_cut_at_last(a.resolution, ea, b.resolution, eb, '.');
    }
}

/// What the catalog says of a page of results and of the whole search.
#[derive(Debug, PartialEq)]
pub struct Meta {
    pub current_page: u32,
    pub last_page: u32,
    pub per_page: String,
    pub total: u32,
    pub query: Option<String>,
    pub seed: Option<String>,
}

/// A `Meta` as plain values.
pub struct MetaView {
    pub current_page: u32,
    pub last_page: u32,
    pub per_page: Seq<char>,
    pub total: u32,
    pub query: Option<Seq<char>>,
    pub seed: Option<Seq<char>>,
}

impl View for Meta {
    type V = MetaView;

    open spec fn view(&self) -> MetaView {
        MetaView {
            current_page: self.current_page,
            last_page: self.last_page,
            per_page: self.per_page@,
            total: self.total,
            query: match self.query {
                Some(text) => Some(text@),
                None => None,
            },
            seed: match self.seed {
                Some(text) => Some(text@),
                None => None,
            },
        }
    }
}

/// One page of search results, in the order in which the catalog gave them.
#[derive(Debug)]
pub struct Response {
    pub data: Vec<Wallpaper>,
    pub meta: Meta,
}

/// A `Response` as plain values.
pub struct ResponseView {
    pub data: Seq<WallpaperView>,
    pub meta: MetaView,
}

impl View for Response {
    type V = ResponseView;

    open spec fn view(&self) -> ResponseView {
        ResponseView { data: views_of(self.data@), meta: self.meta@ }
    }
}

} // verus!
