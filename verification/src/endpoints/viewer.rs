//! What the remote side reports of an item, and the cached item that is
//! made of it.

use crate::error::{each_or_failure, lemma_failure_stays, Error, ErrorKind, ErrorView};
use crate::states::series::{
    Image, ImageView, KhtmlView, Single, SingleView, Viewer, ViewerView, KHTML,
};
use crate::util::{get_param, param_missing, param_value};
use vstd::prelude::*;
use vstd::string::StringExecFns;

verus! {

/// One file of an item that is shown as images.
#[derive(Clone, Debug, PartialEq, Eq)]
pub struct ImageFile {
    pub size: i64,
    pub secure_url: String,
}

/// One piece of an item that is shown as text.
#[derive(Clone, Debug, PartialEq, Eq)]
pub struct TextContent {
    pub chapter_id: i64,
    pub content_id: i64,
    pub secure_url: String,
}

/// The data of an item, by the kind of viewer that shows it.
#[derive(Clone, Debug, PartialEq, Eq)]
pub enum ViewerData {
    ImageViewerData(Vec<ImageFile>),
    TextViewerData(Vec<TextContent>),
    /// A kind of viewer that is not known.
    Unknown,
}

/// What the remote side reports of an item.
#[derive(Clone, Debug, PartialEq, Eq)]
pub struct ViewerInfo {
    pub title: String,
    pub viewer_data: ViewerData,
    pub prev_item: Option<i64>,
    pub next_item: Option<i64>,
}

pub struct ImageFileView {
    pub size: i64,
    pub secure_url: Seq<char>,
}

pub struct TextContentView {
    pub chapter_id: i64,
    pub content_id: i64,
    pub secure_url: Seq<char>,
}

pub enum ViewerDataView {
    ImageViewerData(Seq<ImageFileView>),
    TextViewerData(Seq<TextContentView>),
    Unknown,
}

pub struct ViewerInfoView {
    pub title: Seq<char>,
    pub viewer_data: ViewerDataView,
    pub prev_item: Option<i64>,
    pub next_item: Option<i64>,
}

impl View for ImageFile {
    type V = ImageFileView;

    open spec fn view(&self) -> ImageFileView {
        ImageFileView { size: self.size, secure_url: self.secure_url@ }
    }
}

impl DeepView for ImageFile {
    type V = ImageFileView;

    open spec fn deep_view(&self) -> ImageFileView {
        self@
    }
}

impl View for TextContent {
    type V = TextContentView;

    open spec fn view(&self) -> TextContentView {
        TextContentView {
            chapter_id: self.chapter_id,
            content_id: self.content_id,
            secure_url: self.secure_url@,
        }
    }
}

impl DeepView for TextContent {
    type V = TextContentView;

    open spec fn deep_view(&self) -> TextContentView {
        self@
    }
}

impl View for ViewerData {
    type V = ViewerDataView;

    open spec fn view(&self) -> ViewerDataView {
        match self {
            ViewerData::ImageViewerData(files) => ViewerDataView::ImageViewerData(
                files.deep_view(),
            ),
            ViewerData::TextViewerData(contents) => ViewerDataView::TextViewerData(
                contents.deep_view(),
            ),
            ViewerData::Unknown => ViewerDataView::Unknown,
        }
    }
}

impl View for ViewerInfo {
    type V = ViewerInfoView;

    open spec fn view(&self) -> ViewerInfoView {
        ViewerInfoView {
            title: self.title@,
            viewer_data: self.viewer_data@,
            prev_item: self.prev_item,
            next_item: self.next_item,
        }
    }
}

/// The key under which a file's address names the file.
pub open spec fn kid_key() -> Seq<char> {
    "kid"@
}

/// The failure to show an item whose kind of viewer is not known.
pub open spec fn unsupported_single() -> ErrorView {
    ErrorView { kind: ErrorKind::RemoteProtocol, message: "unsupported single type"@ }
}

/// The page that is made of `file`: its size, and the `kid` of its address.
pub open spec fn image_of(file: ImageFileView) -> Result<ImageView, ErrorView> {
    match param_value(file.secure_url, kid_key()) {
        Some(kid) => Ok(ImageView { size: file.size, kid }),
        None => Err(param_missing(kid_key(), file.secure_url)),
    }
}

/// The address of a piece of text, with the key that names it put before.
pub open spec fn keyed(url: Seq<char>) -> Seq<char> {
    "kid="@ + url
}

/// The chapter that is made of `content`: its ids, and its address up to
/// the first `&` or `kid=`.
pub open spec fn chapter_of(content: TextContentView) -> Result<KhtmlView, ErrorView> {
    match param_value(keyed(content.secure_url), kid_key()) {
        Some(kid) => Ok(
            KhtmlView { chapter_id: content.chapter_id, content_id: content.content_id, kid },
        ),
        None => Err(param_missing(kid_key(), keyed(content.secure_url))),
    }
}

/// The pages that are made of `files`: the failure of the first file that
/// fails, where one does.
pub open spec fn images_of(files: Seq<ImageFileView>) -> Result<Seq<ImageView>, ErrorView> {
    each_or_failure(files, |file: ImageFileView| image_of(file))
}

/// The chapters that are made of `contents`: the failure of the first
/// piece that fails, where one does.
pub open spec fn chapters_of(contents: Seq<TextContentView>) -> Result<Seq<KhtmlView>, ErrorView> {
    each_or_failure(contents, |content: TextContentView| chapter_of(content))
}

/// The cached item that is made of `info`.
pub open spec fn single_of(info: ViewerInfoView) -> Result<SingleView, ErrorView> {
    match info.viewer_data {
        ViewerDataView::ImageViewerData(files) => match images_of(files) {
            Ok(pages) => Ok(
                SingleView {
                    title: info.title,
                    viewer: ViewerView::ImageList(pages),
                    prev: info.prev_item,
                    next: info.next_item,
                },
            ),
            Err(failure) => Err(failure),
        },
        ViewerDataView::TextViewerData(contents) => match chapters_of(contents) {
            Ok(chapters) => Ok(
                SingleView {
                    title: info.title,
                    viewer: ViewerView::KakaoHTML(chapters),
                    prev: info.prev_item,
                    next: info.next_item,
                },
            ),
            Err(failure) => Err(failure),
        },
        ViewerDataView::Unknown => Err(unsupported_single()),
    }
}

fn images_from(files: &Vec<ImageFile>) -> (pages: Result<Vec<Image>, Error>)
    ensures
        match images_of(files.deep_view()) {
            Ok(made) => pages matches Ok(list) && list.deep_view() == made,
            Err(failure) => pages matches Err(error) && error@ == failure,
        },
{
    let ghost make = |file: ImageFileView| image_of(file);
    let mut pages: Vec<Image> = Vec::new();
    let mut at: usize = 0;
    assert(files.deep_view().take(0) =~= Seq::<ImageFileView>::empty());
    assert(pages.deep_view() =~= Seq::<ImageView>::empty());
    while at < files.len()
        invariant
            at <= files.len(),
            make == |file: ImageFileView| image_of(file),
            each_or_failure(files.deep_view().take(at as int), make) == Ok::<
                Seq<ImageView>,
                ErrorView,
            >(pages.deep_view()),
        decreases files.len() - at,
    {
        let file = &files[at];
        let ghost before = pages.deep_view();
        proof {
            let upto = files.deep_view().take(at + 1);
            assert(upto.drop_last() =~= files.deep_view().take(at as int));
            assert(upto.last() == file@);
        }
        match get_param(file.secure_url.as_str(), "kid") {
            Ok(kid) => {
                pages.push(Image { size: file.size, kid });
                assert(pages.deep_view() =~= before.push(image_of(file@)->Ok_0));
            },
            Err(error) => {
                proof {
                    lemma_failure_stays(files.deep_view(), make, at as int);
                }
                return Err(error);
            },
        }
        at += 1;
    }
    assert(files.deep_view().take(files.len() as int) =~= files.deep_view());
    Ok(pages)
}

fn chapters_from(contents: &Vec<TextContent>) -> (chapters: Result<Vec<KHTML>, Error>)
    ensures
        match chapters_of(contents.deep_view()) {
            Ok(made) => chapters matches Ok(list) && list.deep_view() == made,
            Err(failure) => chapters matches Err(error) && error@ == failure,
        },
{
    let ghost make = |content: TextContentView| chapter_of(content);
    let mut chapters: Vec<KHTML> = Vec::new();
    let mut at: usize = 0;
    assert(contents.deep_view().take(0) =~= Seq::<TextContentView>::empty());
    assert(chapters.deep_view() =~= Seq::<KhtmlView>::empty());
    while at < contents.len()
        invariant
            at <= contents.len(),
            make == |content: TextContentView| chapter_of(content),
            each_or_failure(contents.deep_view().take(at as int), make) == Ok::<
                Seq<KhtmlView>,
                ErrorView,
            >(chapters.deep_view()),
        decreases contents.len() - at,
    {
        let content = &contents[at];
        let ghost before = chapters.deep_view();
        proof {
            let upto = contents.deep_view().take(at + 1);
            assert(upto.drop_last() =~= contents.deep_view().take(at as int));
            assert(upto.last() == content@);
        }
        let mut address = String::from_str("kid=");
        address.append(content.secure_url.as_str());
        match get_param(address.as_str(), "kid") {
            Ok(kid) => {
                chapters.push(
                    KHTML { chapter_id: content.chapter_id, content_id: content.content_id, kid },
                );
                assert(chapters.deep_view() =~= before.push(chapter_of(content@)->Ok_0));
            },
            Err(error) => {
                proof {
                    lemma_failure_stays(contents.deep_view(), make, at as int);
                }
                return Err(error);
            },
        }
        at += 1;
    }
    assert(contents.deep_view().take(contents.len() as int) =~= contents.deep_view());
    Ok(chapters)
}

/// Makes the cached item of what the remote side reports.
pub fn single_from_viewer(info: ViewerInfo) -> (single: Result<Single, Error>)
    ensures
        match single_of(info@) {
            Ok(made) => single matches Ok(item) && item@ == made,
            Err(failure) => single matches Err(error) && error@ == failure,
        },
{
    let viewer = match &info.viewer_data {
        ViewerData::ImageViewerData(files) => Viewer::ImageList(images_from(files)?),
        ViewerData::TextViewerData(contents) => Viewer::KakaoHTML(chapters_from(contents)?),
        ViewerData::Unknown => {
            return Err(Error::of(ErrorKind::RemoteProtocol, "unsupported single type"));
        },
    };
    Ok(Single { title: info.title, viewer, prev: info.prev_item, next: info.next_item })
}

} // verus!
