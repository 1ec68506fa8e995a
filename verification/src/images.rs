//! Which images are on screen, and which are to be loaded.

use vstd::prelude::*;
use crate::adblock::{blocks, is_blocked, Blocklist};
use crate::address::{image_path, img_cache_path, opt_text, url_parsed};
use crate::fetcher::host_opt;
use crate::json::{get_text, json_parsed, parse_json, text_member, JsonItem, JsonView};
use crate::renderer::less;
use crate::tab::{lemma_views_push, pairs, views, ImageRef, ImageView};
use crate::text::{contains, has_text, same};

verus! {

broadcast use vstd::string::group_string_axioms;

/// The part of the screen that shows the page.
#[derive(Clone, Copy, PartialEq, Eq, Structural)]
pub struct Viewport {
    pub x: u16,
    pub y: u16,
    pub w: u16,
    pub h: u16,
}

/// The place of one image: its size in cells, where it stands, and which of its rows are
/// seen.
pub struct ImagePlanEntry {
    pub path: String,
    pub x: u16,
    pub y: u16,
    pub full_w: u16,
    pub full_h: u16,
    pub src_top: u16,
    pub src_visible: u16,
}

pub struct PlanView {
    pub path: Seq<char>,
    pub x: u16,
    pub y: u16,
    pub full_w: u16,
    pub full_h: u16,
    pub src_top: u16,
    pub src_visible: u16,
}

impl View for ImagePlanEntry {
    type V = PlanView;

    open spec fn view(&self) -> PlanView {
        PlanView {
            path: self.path@,
            x: self.x,
            y: self.y,
            full_w: self.full_w,
            full_h: self.full_h,
            src_top: self.src_top,
            src_visible: self.src_visible,
        }
    }
}

/// A count of cells, held at the largest there is.
pub open spec fn cells(n: int) -> u16 {
    if n > 65535 {
        65535
    } else {
        n as u16
    }
}

fn to_cells(n: usize) -> (r: u16)
    ensures
        r == cells(n as int),
{
    if n > 65535 {
        65535
    } else {
        n as u16
    }
}

/// The width of an image: a third of the page, but at least 30 and at most 80 cells.
pub open spec fn image_width(w: u16) -> u16 {
    let third = w / 3;
    if third < 30 {
        30
    } else if third > 80 {
        80
    } else {
        third
    }
}

/// The place of an image on a screen whose first line is `top`; `None` where it is not
/// seen.
pub open spec fn placed(img: ImageView, top: int, v: Viewport) -> Option<PlanView> {
    if img.line + img.height <= top || img.line >= top + v.h {
        None
    } else {
        let full_h = cells(img.height);
        let hidden = if img.line < top {
            cells(top - img.line)
        } else {
            0
        };
        let below = if img.line < top {
            0
        } else {
            img.line - top
        };
        let left = if full_h < hidden {
            0
        } else {
            full_h - hidden
        };
        let seen = less(left, v.h - below);
        if seen == 0 {
            None
        } else {
            Some(
                PlanView {
                    path: image_path(img.src),
                    x: v.x,
                    y: cells(v.y + below),
                    full_w: image_width(v.w),
                    full_h,
                    src_top: hidden,
                    src_visible: seen as u16,
                },
            )
        }
    }
}

/// The places of those of the first `n` images that are seen and loaded.
pub open spec fn plan_to(
    images: Seq<ImageView>,
    loaded: Seq<bool>,
    top: int,
    v: Viewport,
    n: int,
) -> Seq<PlanView>
    decreases n,
{
    if n <= 0 {
        Seq::empty()
    } else {
        let before = plan_to(images, loaded, top, v, n - 1);
        match placed(images[n - 1], top, v) {
            Some(p) => if loaded[n - 1] {
                before.push(p)
            } else {
                before
            },
            None => before,
        }
    }
}

/// What is seen of an image lies on the page's part of the screen, and within the image.
pub proof fn law_image_in_viewport(img: ImageView, top: int, v: Viewport)
    requires
        0 <= top,
        0 <= img.line,
        0 <= img.height,
        v.y + v.h <= 65535,
    ensures
        placed(img, top, v) matches Some(p) ==> {
            &&& v.y <= p.y
            &&& p.y + p.src_visible <= v.y + v.h
            &&& 0 < p.src_visible
            &&& p.src_top + p.src_visible <= p.full_h
        },
{
}

fn place_image(img: &ImageRef, top: usize, v: Viewport) -> (r: Option<ImagePlanEntry>)
    ensures
        match r {
            Some(p) => placed(img@, top as int, v) == Some(p@),
            None => placed(img@, top as int, v) is None,
        },
{
    let above = img.line < top;
    if above && img.height <= top - img.line {
        return None;
    }
    if !above && (img.height == 0 && img.line == top) {
        return None;
    }
    if !above && img.line - top >= v.h as usize {
        return None;
    }
    if above && v.h == 0 {
        return None;
    }
    let full_h = to_cells(img.height);
    let hidden: u16 = if above {
        to_cells(top - img.line)
    } else {
        0
    };
    let below: u16 = if above {
        0
    } else {
        (img.line - top) as u16
    };
    let left: u16 = if full_h < hidden {
        0
    } else {
        full_h - hidden
    };
    let room: u16 = v.h - below;
    let seen: u16 = if left < room {
        left
    } else {
        room
    };
    if seen == 0 {
        return None;
    }
    let third: u16 = v.w / 3;
    let full_w: u16 = if third < 30 {
        30
    } else if third > 80 {
        80
    } else {
        third
    };
    let y = to_cells(v.y as usize + below as usize);
    Some(
        ImagePlanEntry {
            path: img_cache_path(img.src.as_str()),
            x: v.x,
            y,
            full_w,
            full_h,
            src_top: hidden,
            src_visible: seen,
        },
    )
}

/// The places of the images that are seen. `loaded` says of each whether it is at hand.
pub fn compute_image_plan(
    images: &Vec<ImageRef>,
    loaded: &Vec<bool>,
    top: usize,
    v: Viewport,
) -> (r: Vec<ImagePlanEntry>)
    requires
        loaded@.len() == images@.len(),
    ensures
        views(r@) == plan_to(views(images@), loaded@, top as int, v, images@.len() as int),
{
    let mut plan: Vec<ImagePlanEntry> = Vec::new();
    let ghost all = views(images@);
    assert(views(plan@) =~= Seq::empty());
    for n in 0..images.len()
        invariant
            all == views(images@),
            loaded@.len() == images@.len(),
            views(plan@) == plan_to(all, loaded@, top as int, v, n as int),
    {
        assert(all[n as int] == images@[n as int]@);
        if let Some(p) = place_image(&images[n], top, v) {
            if loaded[n] {
                proof {
                    lemma_views_push(plan@, p);
                }
                plan.push(p);
            }
        }
    }
    plan
}

pub open spec fn has_path(plan: Seq<PlanView>, path: Seq<char>) -> bool {
    exists|k: int| 0 <= k < plan.len() && (#[trigger] plan[k]).path == path
}

/// The images among the first `n` of the old places that have no new one.
pub open spec fn gone_to(old_plan: Seq<PlanView>, new_plan: Seq<PlanView>, n: int) -> Seq<Seq<char>>
    decreases n,
{
    if n <= 0 {
        Seq::empty()
    } else if has_path(new_plan, old_plan[n - 1].path) {
        gone_to(old_plan, new_plan, n - 1)
    } else {
        gone_to(old_plan, new_plan, n - 1).push(old_plan[n - 1].path)
    }
}

fn find_path(plan: &Vec<ImagePlanEntry>, path: &str) -> (r: bool)
    ensures
        r == has_path(views(plan@), path@),
{
    let ghost all = views(plan@);
    for k in 0..plan.len()
        invariant
            all == views(plan@),
            forall|j: int| 0 <= j < k ==> (#[trigger] all[j]).path != path@,
    {
        assert(all[k as int] == plan@[k as int]@);
        if same(plan[k].path.as_str(), path) {
            return true;
        }
    }
    false
}

/// The images that are to be taken off the screen.
pub fn gone_images(old_plan: &Vec<ImagePlanEntry>, new_plan: &Vec<ImagePlanEntry>) -> (r: Vec<
    String,
>)
    ensures
        views(r@) == gone_to(views(old_plan@), views(new_plan@), old_plan@.len() as int),
{
    let mut out: Vec<String> = Vec::new();
    let ghost all = views(old_plan@);
    assert(views(out@) =~= Seq::empty());
    for n in 0..old_plan.len()
        invariant
            all == views(old_plan@),
            views(out@) == gone_to(all, views(new_plan@), n as int),
    {
        assert(all[n as int] == old_plan@[n as int]@);
        if !find_path(new_plan, old_plan[n].path.as_str()) {
            let path = old_plan[n].path.clone();
            proof {
                lemma_views_push(out@, path);
            }
            out.push(path);
        }
    }
    out
}

/// Whether two plans are the same, so that nothing is to be drawn.
pub fn same_plan(a: &Vec<ImagePlanEntry>, b: &Vec<ImagePlanEntry>) -> (r: bool)
    ensures
        r == (views(a@) == views(b@)),
{
    if a.len() != b.len() {
        assert(views(a@).len() != views(b@).len());
        return false;
    }
    for k in 0..a.len()
        invariant
            a@.len() == b@.len(),
            forall|j: int| 0 <= j < k ==> (#[trigger] views(a@)[j]) == views(b@)[j],
    {
        let p = &a[k];
        let q = &b[k];
        assert(views(a@)[k as int] == p@ && views(b@)[k as int] == q@);
        if !(same(p.path.as_str(), q.path.as_str()) && p.x == q.x && p.y == q.y && p.full_w
            == q.full_w && p.full_h == q.full_h && p.src_top == q.src_top && p.src_visible
            == q.src_visible) {
            return false;
        }
    }
    assert(views(a@) =~= views(b@));
    true
}

/// The images among the first `n` that are neither blocked nor at hand, each with its file.
pub open spec fn wanted_to(
    images: Seq<ImageView>,
    loaded: Seq<bool>,
    blocked: Seq<bool>,
    n: int,
) -> Seq<(Seq<char>, Seq<char>)>
    decreases n,
{
    if n <= 0 {
        Seq::empty()
    } else {
        let before = wanted_to(images, loaded, blocked, n - 1);
        if blocked[n - 1] || loaded[n - 1] {
            before
        } else {
            before.push((images[n - 1].src, image_path(images[n - 1].src)))
        }
    }
}

/// Which images nothing is loaded for.
pub open spec fn blocked_images(images: Seq<ImageView>, domains: Set<Seq<char>>) -> Seq<bool> {
    images.map_values(|i: ImageView| blocks(domains, host_opt(url_parsed(i.src))))
}

/// The images to be loaded, where it is known which are blocked.
pub fn wanted_images(images: &Vec<ImageRef>, loaded: &Vec<bool>, blocked: &Vec<bool>) -> (r: Vec<
    (String, String),
>)
    requires
        loaded@.len() == images@.len(),
        blocked@.len() == images@.len(),
    ensures
        pairs(r@) == wanted_to(views(images@), loaded@, blocked@, images@.len() as int),
{
    let mut out: Vec<(String, String)> = Vec::new();
    let ghost all = views(images@);
    assert(pairs(out@) =~= Seq::empty());
    for n in 0..images.len()
        invariant
            all == views(images@),
            loaded@.len() == images@.len(),
            blocked@.len() == images@.len(),
            pairs(out@) == wanted_to(all, loaded@, blocked@, n as int),
    {
        assert(all[n as int] == images@[n as int]@);
        if !blocked[n] && !loaded[n] {
            let src = images[n].src.clone();
            let path = img_cache_path(src.as_str());
            let ghost pair = (src@, path@);
            let ghost before = pairs(out@);
            out.push((src, path));
            assert(pairs(out@) =~= before.push(pair));
        }
    }
    out
}

/// The images of a page that are to be loaded, each with the file to keep it in.
pub fn start_image_downloads(
    images: &Vec<ImageRef>,
    loaded: &Vec<bool>,
    domains: &Blocklist,
) -> (r: Vec<(String, String)>)
    requires
        loaded@.len() == images@.len(),
    ensures
        pairs(r@) == wanted_to(
            views(images@),
            loaded@,
            blocked_images(views(images@), domains@),
            images@.len() as int,
        ),
{
    let mut blocked: Vec<bool> = Vec::new();
    for n in 0..images.len()
        invariant
            blocked@.len() == n,
            forall|j: int|
                0 <= j < n ==> (#[trigger] blocked@[j]) == blocks(
                    domains@,
                    host_opt(url_parsed(images@[j].src@)),
                ),
    {
        blocked.push(is_blocked(domains, images[n].src.as_str()));
    }
    assert(blocked@ =~= blocked_images(views(images@), domains@));
    wanted_images(images, loaded, &blocked)
}

// --- Previews ---

/// Whether what came in place of an image describes one.
pub fn is_oembed(content_type: &str, url: &str) -> (r: bool)
    ensures
        r == (has_text(content_type@, "json"@) && has_text(url@, "oembed"@)),
{
    contains(content_type, "json") && contains(url, "oembed")
}

/// The address of the image that a description names.
pub open spec fn thumbnail(json: Option<Seq<JsonView>>) -> Option<Seq<char>> {
    match json {
        Some(v) => text_member(v, 0, "thumbnail_url"@),
        None => None,
    }
}

/// The address of the image that a description, once read, names.
pub fn thumbnail_in(v: &Vec<JsonItem>) -> (r: Option<String>)
    requires
        v@.len() > 0,
    ensures
        opt_text(r) == text_member(views(v@), 0, "thumbnail_url"@),
{
    match get_text(v, 0, "thumbnail_url") {
        Some(s) => Some(s.to_string()),
        None => None,
    }
}

pub fn oembed_thumbnail(body: &str) -> (r: Option<String>)
    ensures
        opt_text(r) == thumbnail(json_parsed(body@)),
{
    match parse_json(body) {
        Some(v) => thumbnail_in(&v),
        None => None,
    }
}

} // verus!
