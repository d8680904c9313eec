//! Sample layout sets and table sets: their catalogue and the messages that
//! stop an installation when names are already taken.
use vstd::prelude::*;

use crate::error::DomainError;
use crate::schema::join;
use crate::text::{append_vec, chars_of, chars_of_string, seq_eq, string_of};

verus! {

/// A sample layout set shown in the admin.
#[derive(Debug, Clone, Copy)]
pub struct SampleLayoutSetMeta {
    pub key: &'static str,
    pub label: &'static str,
    pub description: &'static str,
    pub layout_key: &'static str,
    pub tags: &'static [&'static str],
}

/// A sample table set shown in the admin.
#[derive(Debug, Clone, Copy)]
pub struct SampleTableSetMeta {
    pub key: &'static str,
    pub label: &'static str,
    pub description: &'static str,
    pub tags: &'static [&'static str],
    pub table_names: &'static [&'static str],
}

/// What an installation did.
#[derive(Debug, Clone)]
pub enum InstallResult {
    Layout {
        message: String,
        layout_key: String,
        placeholders_count: i64,
        posts_count: i64,
        media_count: i64,
        pages_count: i64,
    },
    Tables { message: String, tables_count: i64, views_count: i64 },
}

/// A placeholder of a sample layout set.
pub struct PlaceholderSpec {
    pub name: &'static str,
    pub type_key: &'static str,
    pub config: &'static str,
}

/// A page of a sample layout set.
pub struct PageSpec {
    pub name: &'static str,
    pub url_path: &'static str,
    pub file_name: &'static str,
    pub content: &'static str,
}

/// The static description and assets of a sample layout set.
pub struct LayoutSetSpec {
    pub layout_key: &'static str,
    pub layout_name: &'static str,
    pub shell_html: &'static str,
    pub site_css: &'static str,
    pub preview_path: &'static str,
    pub success_message: &'static str,
    pub placeholders: &'static [PlaceholderSpec],
    pub post_slugs: &'static [&'static str],
    pub media_files: &'static [&'static str],
    pub page_url_paths: &'static [&'static str],
    pub pages: &'static [PageSpec],
}

/// The placeholder ids a sample layout set seeds posts into.
pub struct PlaceholderIds {
    pub news: i64,
    pub announcements: i64,
    pub hero: i64,
    pub carousel: i64,
    pub sidebar: i64,
    pub contact: i64,
}

pub open spec fn strings_of(v: Seq<String>) -> Seq<Seq<char>> {
    Seq::new(v.len(), |i: int| v[i]@)
}

/// The error that stops an installation, listing the names already taken.
pub fn abort(conflicts: Vec<String>) -> (e: DomainError)
    ensures
        e matches DomainError::Conflict(m) && m@ == "以下の名前が既に存在するため、インストールを中止しました: "@ + join(
            strings_of(conflicts@),
            ", "@,
        ),
{
    let listed = crate::schema::join_strings(&conflicts, ", ");
    assert(conflicts.deep_view() =~= strings_of(conflicts@));
    let mut m = chars_of("以下の名前が既に存在するため、インストールを中止しました: ");
    let lv = chars_of_string(&listed);
    append_vec(&mut m, &lv);
    DomainError::Conflict(string_of(&m))
}

/// `label "value"` for each value.
pub fn format_labeled(label: &str, values: Vec<String>) -> (r: Vec<String>)
    ensures
        strings_of(r@) == Seq::new(values@.len(), |i: int| label@ + " \""@ + values@[i]@ + "\""@),
{
    let mut out: Vec<String> = Vec::new();
    let mut i: usize = 0;
    while i < values.len()
        invariant
            i <= values.len(),
            strings_of(out@) =~= Seq::new(i as nat, |k: int| label@ + " \""@ + values@[k]@ + "\""@),
        decreases values.len() - i,
    {
        let mut m = chars_of(label);
        let q = chars_of(" \"");
        append_vec(&mut m, &q);
        let v = chars_of_string(&values[i]);
        append_vec(&mut m, &v);
        let e = chars_of("\"");
        append_vec(&mut m, &e);
        let s = string_of(&m);
        let ghost old = strings_of(out@);
        out.push(s);
        assert(strings_of(out@) =~= old.push(s@));
        i += 1;
    }
    out
}

pub open spec fn strs_of(v: Seq<&str>) -> Seq<Seq<char>> {
    Seq::new(v.len(), |i: int| v[i]@)
}

/// The files to look for on disk: those not already reported, in order.
pub open spec fn upload_files_to_check_spec(files: Seq<Seq<char>>, exclude: Seq<Seq<char>>) -> Seq<Seq<char>> {
    files.filter(|f: Seq<char>| !exclude.contains(f))
}

fn contains_str(v: &[String], s: &str) -> (b: bool)
    ensures
        b == strings_of(v@).contains(s@),
{
    let sv = chars_of(s);
    let mut i: usize = 0;
    while i < v.len()
        invariant
            i <= v.len(),
            sv@ == s@,
            forall|k: int| 0 <= k < i ==> v@[k]@ != s@,
        decreases v.len() - i,
    {
        let c = chars_of_string(&v[i]);
        if seq_eq(&c, &sv) {
            assert(strings_of(v@)[i as int] == s@);
            return true;
        }
        i += 1;
    }
    assert forall|k: int| 0 <= k < strings_of(v@).len() implies strings_of(v@)[k] != s@ by {
        assert(strings_of(v@)[k] == v@[k]@);
    }
    false
}

/// Of the files an installation would upload, those not already reported as
/// taken; each still has to be looked for in the upload directory.
pub fn upload_files_to_check(files: &[&str], exclude: &[String]) -> (r: Vec<String>)
    ensures
        strings_of(r@) == upload_files_to_check_spec(strs_of(files@), strings_of(exclude@)),
{
    let ghost fs = strs_of(files@);
    let ghost ex = strings_of(exclude@);
    let ghost pred = |f: Seq<char>| !ex.contains(f);
    let mut out: Vec<String> = Vec::new();
    let mut i: usize = 0;
    proof {
        reveal(Seq::filter);
        assert(fs.take(0) =~= seq![]);
        assert(strings_of(out@) =~= seq![]);
    }
    while i < files.len()
        invariant
            i <= files.len(),
            fs == strs_of(files@),
            ex == strings_of(exclude@),
            pred == (|f: Seq<char>| !ex.contains(f)),
            strings_of(out@) == fs.take(i as int).filter(pred),
        decreases files.len() - i,
    {
        proof {
            reveal(Seq::filter);
            assert(fs.take(i + 1).drop_last() =~= fs.take(i as int));
            assert(fs.take(i + 1).last() == files@[i as int]@);
        }
        if !contains_str(exclude, files[i]) {
            let s = String::from_str(files[i]);
            let ghost old = strings_of(out@);
            out.push(s);
            assert(strings_of(out@) =~= old.push(s@));
        }
        i += 1;
    }
    assert(fs.take(files@.len() as int) =~= fs);
    out
}

/// How an upload file that already exists is reported.
pub fn upload_file_conflict_label(file: &str) -> (s: String)
    ensures
        s@ == "アップロードファイル \""@ + file@ + "\""@,
{
    let mut m = chars_of("アップロードファイル \"");
    let f = chars_of(file);
    append_vec(&mut m, &f);
    let e = chars_of("\"");
    append_vec(&mut m, &e);
    string_of(&m)
}

/// Where a reserved media URL would clash with the site's own routes.
pub open spec fn reserved_url_spec(path: Seq<char>) -> bool {
    ||| path == "/"@
    ||| path == "/admin"@
    ||| crate::text::starts_with(path, "/admin/"@)
    ||| path == "/static"@
    ||| crate::text::starts_with(path, "/static/"@)
    ||| path == "/uploads"@
    ||| crate::text::starts_with(path, "/uploads/"@)
    ||| path == "/api"@
    ||| crate::text::starts_with(path, "/api/"@)
}

fn is_str(v: &Vec<char>, s: &str) -> (b: bool)
    ensures
        b == (v@ == s@),
{
    let sv = chars_of(s);
    seq_eq(v, &sv)
}

fn has_prefix(v: &Vec<char>, s: &str) -> (b: bool)
    ensures
        b == crate::text::starts_with(v@, s@),
{
    let sv = chars_of(s);
    crate::text::starts_with_exec(v, &sv)
}

/// Public media URLs that the site reserves for itself.
pub fn is_reserved_media_public_url(path: &str) -> (b: bool)
    ensures
        b == reserved_url_spec(path@),
{
    let p = chars_of(path);
    is_str(&p, "/") || is_str(&p, "/admin") || has_prefix(&p, "/admin/") || is_str(&p, "/static") || has_prefix(
        &p,
        "/static/",
    ) || is_str(&p, "/uploads") || has_prefix(&p, "/uploads/") || is_str(&p, "/api") || has_prefix(&p, "/api/")
}

// ---------------------------------------------------------------------------
// Sample content of a layout set
// ---------------------------------------------------------------------------

/// A sample layout set that comes with content.
#[derive(Debug, Clone, Copy, PartialEq, Eq, Structural)]
pub enum SampleSetKind {
    Bicycle,
    Corporate,
}

/// A post to insert under a placeholder; an empty `published_at` leaves the
/// post unpublished.
#[derive(Debug, Clone)]
pub struct SamplePost {
    pub placeholder_id: i64,
    pub slug: String,
    pub title: String,
    pub excerpt: String,
    pub published_at: String,
    pub status: String,
}

/// A media file to register.
#[derive(Debug, Clone)]
pub struct SampleAttachment {
    pub file_path: String,
    pub mime_type: String,
    pub original_name: String,
    pub file_size: i64,
}

/// A post that shows one of the plan's attachments: its `media_id` meta
/// names the attachment at index `attachment`, and `metas` follow it.
#[derive(Debug, Clone)]
pub struct SampleMediaPost {
    pub post: SamplePost,
    pub attachment: usize,
    pub metas: Vec<(String, String)>,
}

/// The content a sample layout set installs, in the order it is written:
/// the posts, then the attachments, then the posts that show them.
#[derive(Debug, Clone)]
pub struct SampleContentPlan {
    pub posts: Vec<SamplePost>,
    pub attachments: Vec<SampleAttachment>,
    pub media_posts: Vec<SampleMediaPost>,
}

pub struct SamplePostP {
    pub placeholder_id: i64,
    pub slug: Seq<char>,
    pub title: Seq<char>,
    pub excerpt: Seq<char>,
    pub published_at: Seq<char>,
    pub status: Seq<char>,
}

pub struct AttachmentP {
    pub file_path: Seq<char>,
    pub mime_type: Seq<char>,
    pub original_name: Seq<char>,
    pub file_size: i64,
}

pub struct MediaPostP {
    pub post: SamplePostP,
    pub attachment: int,
    pub metas: Seq<(Seq<char>, Seq<char>)>,
}

pub struct ContentPlanP {
    pub posts: Seq<SamplePostP>,
    pub attachments: Seq<AttachmentP>,
    pub media_posts: Seq<MediaPostP>,
}

pub open spec fn sample_post_view(p: SamplePost) -> SamplePostP {
    SamplePostP {
        placeholder_id: p.placeholder_id,
        slug: p.slug@,
        title: p.title@,
        excerpt: p.excerpt@,
        published_at: p.published_at@,
        status: p.status@,
    }
}

pub open spec fn attachment_view(a: SampleAttachment) -> AttachmentP {
    AttachmentP {
        file_path: a.file_path@,
        mime_type: a.mime_type@,
        original_name: a.original_name@,
        file_size: a.file_size,
    }
}

pub open spec fn metas_view(v: Seq<(String, String)>) -> Seq<(Seq<char>, Seq<char>)> {
    Seq::new(v.len(), |i: int| (v[i].0@, v[i].1@))
}

pub open spec fn media_post_view(m: SampleMediaPost) -> MediaPostP {
    MediaPostP { post: sample_post_view(m.post), attachment: m.attachment as int, metas: metas_view(m.metas@) }
}

pub open spec fn content_plan_view(p: SampleContentPlan) -> ContentPlanP {
    ContentPlanP {
        posts: Seq::new(p.posts@.len(), |i: int| sample_post_view(p.posts@[i])),
        attachments: Seq::new(p.attachments@.len(), |i: int| attachment_view(p.attachments@[i])),
        media_posts: Seq::new(p.media_posts@.len(), |i: int| media_post_view(p.media_posts@[i])),
    }
}

pub open spec fn post_p(
    placeholder_id: i64,
    slug: Seq<char>,
    title: Seq<char>,
    excerpt: Seq<char>,
    published_at: Seq<char>,
    status: Seq<char>,
) -> SamplePostP {
    SamplePostP { placeholder_id, slug, title, excerpt, published_at, status }
}

fn sample_post(placeholder_id: i64, slug: &str, title: &str, excerpt: &str, published_at: &str, status: &str) -> (p:
    SamplePost)
    ensures
        sample_post_view(p) == post_p(placeholder_id, slug@, title@, excerpt@, published_at@, status@),
{
    SamplePost {
        placeholder_id,
        slug: String::from_str(slug),
        title: String::from_str(title),
        excerpt: String::from_str(excerpt),
        published_at: String::from_str(published_at),
        status: String::from_str(status),
    }
}

fn sample_attachment(file_path: &str, mime_type: &str, original_name: &str, file_size: i64) -> (a: SampleAttachment)
    ensures
        attachment_view(a) == (AttachmentP {
            file_path: file_path@,
            mime_type: mime_type@,
            original_name: original_name@,
            file_size,
        }),
{
    SampleAttachment {
        file_path: String::from_str(file_path),
        mime_type: String::from_str(mime_type),
        original_name: String::from_str(original_name),
        file_size,
    }
}

fn meta(key: &str, value: &str) -> (m: (String, String))
    ensures
        m.0@ == key@,
        m.1@ == value@,
{
    (String::from_str(key), String::from_str(value))
}

/// The posts of the bicycle set, by placeholder.
pub open spec fn bicycle_posts_spec(ids: PlaceholderIds) -> Seq<SamplePostP> {
    seq![
        post_p(ids.news, "bicycle-spring-new-arrival"@, "春の新車入荷のお知らせ"@, "街乗り向けクロスバイクと電動アシストモデルを追加しました。"@, "2026-04-15T09:00:00Z"@, "publish"@),
        post_p(ids.news, "bicycle-safety-check-campaign"@, "安全点検無料キャンペーン（5月）"@, "ブレーキ・タイヤ・ライトの点検を無料で承ります。要予約。"@, "2026-04-10T14:30:00Z"@, "publish"@),
        post_p(ids.news, "bicycle-sunday-group-ride"@, "日曜グループライドを再開します"@, "初心者歓迎の河川敷コース。集合は店舗前 8:30 です。"@, "2026-03-20T11:15:00Z"@, "publish"@),
        post_p(ids.news, "bicycle-ebike-test-ride"@, "電動アシスト試乗会を開催"@, "最新モデルを実際に走って体感できます。予約優先。"@, "2026-03-01T10:00:00Z"@, "publish"@),
        post_p(ids.news, "bicycle-rental-plan-update"@, "レンタルプランをリニューアル"@, "1時間プランと半日プランを追加しました。"@, "2026-02-15T09:00:00Z"@, "publish"@),
        post_p(ids.news, "bicycle-winter-hours-draft"@, "冬季営業時間の案内（下書き）"@, "12月からの営業時間変更を準備中です。"@, ""@, "draft"@),
        post_p(ids.announcements, "bicycle-rainy-day-tips"@, "雨の日のライドに関するお願い"@, "視界確保のためライトの点灯をお願いしています。"@, "2026-05-25T23:00:00Z"@, "publish"@),
        post_p(ids.announcements, "bicycle-pump-station-free"@, "空気入れステーションを無料開放中"@, "店舗前のスタンドをいつでもご利用いただけます。"@, "2026-05-28T10:00:00Z"@, "publish"@),
        post_p(ids.announcements, "bicycle-kids-bike-fair"@, "キッズバイクフェア開催"@, "6月第1土曜日。子ども用ヘルメットの相談も承ります。"@, "2026-05-01T00:00:00Z"@, "publish"@),
        post_p(ids.announcements, "bicycle-staff-wanted"@, "スタッフ募集のお知らせ"@, "自転車が好きな方、整備経験者を歓迎します。"@, "2026-04-28T14:00:00Z"@, "publish"@),
        post_p(ids.sidebar, "bicycle-tip-tire-pressure"@, "タイヤの空気圧を月1回チェック"@, "適正な空気圧で走行が楽になり、パンクも防げます。"@, "2026-05-18T08:00:00Z"@, "publish"@),
        post_p(ids.sidebar, "bicycle-tip-chain-care"@, "チェーンの清掃と注油"@, "走行後の砂ぼこりを落とすと、変速がスムーズになります。"@, "2026-05-22T16:45:00Z"@, "publish"@),
    ]
}

pub open spec fn bicycle_attachments_spec() -> Seq<AttachmentP> {
    seq![
        AttachmentP { file_path: "bicycle-hero.png"@, mime_type: "image/png"@, original_name: "bicycle-hero.png"@, file_size: 12345 },
        AttachmentP { file_path: "bicycle-carousel-1.png"@, mime_type: "image/png"@, original_name: "bicycle-slide-1.png"@, file_size: 8901 },
        AttachmentP { file_path: "bicycle-carousel-2.png"@, mime_type: "image/png"@, original_name: "bicycle-slide-2.png"@, file_size: 9012 },
        AttachmentP { file_path: "bicycle-carousel-3.png"@, mime_type: "image/png"@, original_name: "bicycle-slide-3.png"@, file_size: 9123 },
    ]
}

/// The hero entry shows the first attachment, each slide the next one.
pub open spec fn bicycle_media_posts_spec(ids: PlaceholderIds) -> Seq<MediaPostP> {
    seq![
        MediaPostP { post: post_p(ids.hero, "bicycle-hero-main"@, "店頭の自転車ディスプレイ"@, "春の新車ラインナップをご覧ください"@, "2026-05-01T00:00:00Z"@, "publish"@), attachment: 0, metas: seq![("float"@, "none"@), ("margin"@, "0"@)] },
        MediaPostP { post: post_p(ids.carousel, "bicycle-slide-spring-sale"@, "春の新車セール開催中"@, ""@, "2026-05-10T00:00:00Z"@, "publish"@), attachment: 1, metas: seq![("alt"@, "春の新車セール開催中"@)] },
        MediaPostP { post: post_p(ids.carousel, "bicycle-slide-repair"@, "修理・点検は事前予約がおすすめ"@, ""@, "2026-05-10T00:00:00Z"@, "publish"@), attachment: 2, metas: seq![("alt"@, "修理・点検は事前予約がおすすめ"@)] },
        MediaPostP { post: post_p(ids.carousel, "bicycle-slide-ride-event"@, "6月 グループライド参加者募集"@, ""@, "2026-05-10T00:00:00Z"@, "publish"@), attachment: 3, metas: seq![("alt"@, "6月 グループライド参加者募集"@)] },
    ]
}

/// The posts of the corporate set, by placeholder.
pub open spec fn corporate_posts_spec(ids: PlaceholderIds) -> Seq<SamplePostP> {
    seq![
        post_p(ids.news, "corporate-new-service-launch"@, "新サービス「サポートプラン」を開始しました"@, "中小企業向けの運用支援プランを提供開始。初月無料キャンペーン実施中。"@, "2026-04-15T09:00:00Z"@, "publish"@),
        post_p(ids.news, "corporate-spring-seminar"@, "5月開催：Web サイト改善セミナーのご案内"@, "更新しやすいサイト運用のポイントを、事例を交えてご紹介します。"@, "2026-04-10T14:30:00Z"@, "publish"@),
        post_p(ids.news, "corporate-case-study-manufacturing"@, "導入事例：製造業 A 社の業務効率化プロジェクト"@, "受注管理のデジタル化により、処理時間を約 40% 削減しました。"@, "2026-03-20T11:15:00Z"@, "publish"@),
        post_p(ids.news, "corporate-recruitment-2026"@, "2026年度 新卒・キャリア採用を開始"@, "エンジニア、デザイナー、カスタマーサクセスのポジションを募集しています。"@, "2026-03-01T10:00:00Z"@, "publish"@),
        post_p(ids.news, "corporate-office-renewal"@, "オフィス移転のお知らせ"@, "2026年7月より新オフィスへ移転予定です。詳細は順次お知らせします。"@, "2026-02-15T09:00:00Z"@, "publish"@),
        post_p(ids.news, "corporate-partner-draft"@, "パートナー制度の準備中（下書き）"@, "近日中に詳細を公開予定です。"@, ""@, "draft"@),
        post_p(ids.announcements, "corporate-summer-hours"@, "夏季休業のお知らせ（8月13日〜8月16日）"@, "休業期間中のお問い合わせは、8月17日以降に順次対応いたします。"@, "2026-05-25T23:00:00Z"@, "publish"@),
        post_p(ids.announcements, "corporate-support-plan"@, "サポートプランの料金表を更新しました"@, "スタンダードプランに月次レポート機能を追加しました。"@, "2026-05-28T10:00:00Z"@, "publish"@),
        post_p(ids.announcements, "corporate-community-event"@, "地域ビジネス交流会に出展します"@, "6月20日（土）に地元のビジネス交流会へ参加予定です。"@, "2026-05-01T00:00:00Z"@, "publish"@),
        post_p(ids.announcements, "corporate-partner-program"@, "パートナープログラムの募集を開始"@, "協業パートナー企業を広く募集しています。"@, "2026-04-28T14:00:00Z"@, "publish"@),
        post_p(ids.sidebar, "corporate-tip-update-news"@, "お知らせは定期的に更新しましょう"@, "月1回の更新でも、サイトの信頼感は大きく変わります。"@, "2026-05-18T08:00:00Z"@, "publish"@),
        post_p(ids.sidebar, "corporate-tip-carousel-images"@, "カルーセル画像は統一感を意識"@, "同じ比率・トーンの画像を使うと、見た目が整います。"@, "2026-05-22T16:45:00Z"@, "publish"@),
    ]
}

pub open spec fn corporate_attachments_spec() -> Seq<AttachmentP> {
    seq![
        AttachmentP { file_path: "corporate-hero.png"@, mime_type: "image/png"@, original_name: "corporate-hero.png"@, file_size: 12345 },
        AttachmentP { file_path: "corporate-carousel-1.png"@, mime_type: "image/png"@, original_name: "corporate-slide-1.png"@, file_size: 8901 },
        AttachmentP { file_path: "corporate-carousel-2.png"@, mime_type: "image/png"@, original_name: "corporate-slide-2.png"@, file_size: 9012 },
        AttachmentP { file_path: "corporate-carousel-3.png"@, mime_type: "image/png"@, original_name: "corporate-slide-3.png"@, file_size: 9123 },
    ]
}

/// The hero entry shows the first attachment, each slide the next one.
pub open spec fn corporate_media_posts_spec(ids: PlaceholderIds) -> Seq<MediaPostP> {
    seq![
        MediaPostP { post: post_p(ids.hero, "corporate-hero-main"@, "メインキービジュアル"@, "サイトを象徴するビジュアルです"@, "2026-05-01T00:00:00Z"@, "publish"@), attachment: 0, metas: seq![("float"@, "none"@), ("margin"@, "0"@)] },
        MediaPostP { post: post_p(ids.carousel, "corporate-slide-spring"@, "春の新生活キャンペーン"@, ""@, "2026-05-10T00:00:00Z"@, "publish"@), attachment: 1, metas: seq![("alt"@, "春の新生活キャンペーン"@)] },
        MediaPostP { post: post_p(ids.carousel, "corporate-slide-case-study"@, "導入事例を公開しました"@, ""@, "2026-05-10T00:00:00Z"@, "publish"@), attachment: 2, metas: seq![("alt"@, "導入事例を公開しました"@)] },
        MediaPostP { post: post_p(ids.carousel, "corporate-slide-seminar"@, "6月 セミナー開催のご案内"@, ""@, "2026-05-10T00:00:00Z"@, "publish"@), attachment: 3, metas: seq![("alt"@, "6月 セミナー開催のご案内"@)] },
    ]
}

/// The content of a sample layout set for its placeholders.
pub open spec fn sample_content_spec(set: SampleSetKind, ids: PlaceholderIds) -> ContentPlanP {
    match set {
        SampleSetKind::Bicycle => ContentPlanP {
            posts: bicycle_posts_spec(ids),
            attachments: bicycle_attachments_spec(),
            media_posts: bicycle_media_posts_spec(ids),
        },
        SampleSetKind::Corporate => ContentPlanP {
            posts: corporate_posts_spec(ids),
            attachments: corporate_attachments_spec(),
            media_posts: corporate_media_posts_spec(ids),
        },
    }
}

fn bicycle_content(ids: &PlaceholderIds) -> (p: SampleContentPlan)
    ensures
        content_plan_view(p) == sample_content_spec(SampleSetKind::Bicycle, *ids),
{
    let mut posts: Vec<SamplePost> = Vec::new();
    posts.push(sample_post(ids.news, "bicycle-spring-new-arrival", "春の新車入荷のお知らせ", "街乗り向けクロスバイクと電動アシストモデルを追加しました。", "2026-04-15T09:00:00Z", "publish"));
    posts.push(sample_post(ids.news, "bicycle-safety-check-campaign", "安全点検無料キャンペーン（5月）", "ブレーキ・タイヤ・ライトの点検を無料で承ります。要予約。", "2026-04-10T14:30:00Z", "publish"));
    posts.push(sample_post(ids.news, "bicycle-sunday-group-ride", "日曜グループライドを再開します", "初心者歓迎の河川敷コース。集合は店舗前 8:30 です。", "2026-03-20T11:15:00Z", "publish"));
    posts.push(sample_post(ids.news, "bicycle-ebike-test-ride", "電動アシスト試乗会を開催", "最新モデルを実際に走って体感できます。予約優先。", "2026-03-01T10:00:00Z", "publish"));
    posts.push(sample_post(ids.news, "bicycle-rental-plan-update", "レンタルプランをリニューアル", "1時間プランと半日プランを追加しました。", "2026-02-15T09:00:00Z", "publish"));
    posts.push(sample_post(ids.news, "bicycle-winter-hours-draft", "冬季営業時間の案内（下書き）", "12月からの営業時間変更を準備中です。", "", "draft"));
    posts.push(sample_post(ids.announcements, "bicycle-rainy-day-tips", "雨の日のライドに関するお願い", "視界確保のためライトの点灯をお願いしています。", "2026-05-25T23:00:00Z", "publish"));
    posts.push(sample_post(ids.announcements, "bicycle-pump-station-free", "空気入れステーションを無料開放中", "店舗前のスタンドをいつでもご利用いただけます。", "2026-05-28T10:00:00Z", "publish"));
    posts.push(sample_post(ids.announcements, "bicycle-kids-bike-fair", "キッズバイクフェア開催", "6月第1土曜日。子ども用ヘルメットの相談も承ります。", "2026-05-01T00:00:00Z", "publish"));
    posts.push(sample_post(ids.announcements, "bicycle-staff-wanted", "スタッフ募集のお知らせ", "自転車が好きな方、整備経験者を歓迎します。", "2026-04-28T14:00:00Z", "publish"));
    posts.push(sample_post(ids.sidebar, "bicycle-tip-tire-pressure", "タイヤの空気圧を月1回チェック", "適正な空気圧で走行が楽になり、パンクも防げます。", "2026-05-18T08:00:00Z", "publish"));
    posts.push(sample_post(ids.sidebar, "bicycle-tip-chain-care", "チェーンの清掃と注油", "走行後の砂ぼこりを落とすと、変速がスムーズになります。", "2026-05-22T16:45:00Z", "publish"));
    let mut attachments: Vec<SampleAttachment> = Vec::new();
    attachments.push(sample_attachment("bicycle-hero.png", "image/png", "bicycle-hero.png", 12345));
    attachments.push(sample_attachment("bicycle-carousel-1.png", "image/png", "bicycle-slide-1.png", 8901));
    attachments.push(sample_attachment("bicycle-carousel-2.png", "image/png", "bicycle-slide-2.png", 9012));
    attachments.push(sample_attachment("bicycle-carousel-3.png", "image/png", "bicycle-slide-3.png", 9123));
    let mut media_posts: Vec<SampleMediaPost> = Vec::new();
    let hero = sample_post(ids.hero, "bicycle-hero-main", "店頭の自転車ディスプレイ", "春の新車ラインナップをご覧ください", "2026-05-01T00:00:00Z", "publish");
    let hero_metas = vec![meta("float", "none"), meta("margin", "0")];
    proof {
        assert(metas_view(hero_metas@) =~= seq![("float"@, "none"@), ("margin"@, "0"@)]);
    }
    media_posts.push(SampleMediaPost { post: hero, attachment: 0, metas: hero_metas });
    let slide = sample_post(ids.carousel, "bicycle-slide-spring-sale", "春の新車セール開催中", "", "2026-05-10T00:00:00Z", "publish");
    let slide_metas = vec![meta("alt", "春の新車セール開催中")];
    proof {
        assert(metas_view(slide_metas@) =~= seq![("alt"@, "春の新車セール開催中"@)]);
    }
    media_posts.push(SampleMediaPost { post: slide, attachment: 1, metas: slide_metas });
    let slide = sample_post(ids.carousel, "bicycle-slide-repair", "修理・点検は事前予約がおすすめ", "", "2026-05-10T00:00:00Z", "publish");
    let slide_metas = vec![meta("alt", "修理・点検は事前予約がおすすめ")];
    proof {
        assert(metas_view(slide_metas@) =~= seq![("alt"@, "修理・点検は事前予約がおすすめ"@)]);
    }
    media_posts.push(SampleMediaPost { post: slide, attachment: 2, metas: slide_metas });
    let slide = sample_post(ids.carousel, "bicycle-slide-ride-event", "6月 グループライド参加者募集", "", "2026-05-10T00:00:00Z", "publish");
    let slide_metas = vec![meta("alt", "6月 グループライド参加者募集")];
    proof {
        assert(metas_view(slide_metas@) =~= seq![("alt"@, "6月 グループライド参加者募集"@)]);
    }
    media_posts.push(SampleMediaPost { post: slide, attachment: 3, metas: slide_metas });
    let p = SampleContentPlan { posts, attachments, media_posts };
    assert(content_plan_view(p).posts =~= bicycle_posts_spec(*ids));
    assert(content_plan_view(p).attachments =~= bicycle_attachments_spec());
    assert(content_plan_view(p).media_posts =~= bicycle_media_posts_spec(*ids));
    p
}

fn corporate_content(ids: &PlaceholderIds) -> (p: SampleContentPlan)
    ensures
        content_plan_view(p) == sample_content_spec(SampleSetKind::Corporate, *ids),
{
    let mut posts: Vec<SamplePost> = Vec::new();
    posts.push(sample_post(ids.news, "corporate-new-service-launch", "新サービス「サポートプラン」を開始しました", "中小企業向けの運用支援プランを提供開始。初月無料キャンペーン実施中。", "2026-04-15T09:00:00Z", "publish"));
    posts.push(sample_post(ids.news, "corporate-spring-seminar", "5月開催：Web サイト改善セミナーのご案内", "更新しやすいサイト運用のポイントを、事例を交えてご紹介します。", "2026-04-10T14:30:00Z", "publish"));
    posts.push(sample_post(ids.news, "corporate-case-study-manufacturing", "導入事例：製造業 A 社の業務効率化プロジェクト", "受注管理のデジタル化により、処理時間を約 40% 削減しました。", "2026-03-20T11:15:00Z", "publish"));
    posts.push(sample_post(ids.news, "corporate-recruitment-2026", "2026年度 新卒・キャリア採用を開始", "エンジニア、デザイナー、カスタマーサクセスのポジションを募集しています。", "2026-03-01T10:00:00Z", "publish"));
    posts.push(sample_post(ids.news, "corporate-office-renewal", "オフィス移転のお知らせ", "2026年7月より新オフィスへ移転予定です。詳細は順次お知らせします。", "2026-02-15T09:00:00Z", "publish"));
    posts.push(sample_post(ids.news, "corporate-partner-draft", "パートナー制度の準備中（下書き）", "近日中に詳細を公開予定です。", "", "draft"));
    posts.push(sample_post(ids.announcements, "corporate-summer-hours", "夏季休業のお知らせ（8月13日〜8月16日）", "休業期間中のお問い合わせは、8月17日以降に順次対応いたします。", "2026-05-25T23:00:00Z", "publish"));
    posts.push(sample_post(ids.announcements, "corporate-support-plan", "サポートプランの料金表を更新しました", "スタンダードプランに月次レポート機能を追加しました。", "2026-05-28T10:00:00Z", "publish"));
    posts.push(sample_post(ids.announcements, "corporate-community-event", "地域ビジネス交流会に出展します", "6月20日（土）に地元のビジネス交流会へ参加予定です。", "2026-05-01T00:00:00Z", "publish"));
    posts.push(sample_post(ids.announcements, "corporate-partner-program", "パートナープログラムの募集を開始", "協業パートナー企業を広く募集しています。", "2026-04-28T14:00:00Z", "publish"));
    posts.push(sample_post(ids.sidebar, "corporate-tip-update-news", "お知らせは定期的に更新しましょう", "月1回の更新でも、サイトの信頼感は大きく変わります。", "2026-05-18T08:00:00Z", "publish"));
    posts.push(sample_post(ids.sidebar, "corporate-tip-carousel-images", "カルーセル画像は統一感を意識", "同じ比率・トーンの画像を使うと、見た目が整います。", "2026-05-22T16:45:00Z", "publish"));
    let mut attachments: Vec<SampleAttachment> = Vec::new();
    attachments.push(sample_attachment("corporate-hero.png", "image/png", "corporate-hero.png", 12345));
    attachments.push(sample_attachment("corporate-carousel-1.png", "image/png", "corporate-slide-1.png", 8901));
    attachments.push(sample_attachment("corporate-carousel-2.png", "image/png", "corporate-slide-2.png", 9012));
    attachments.push(sample_attachment("corporate-carousel-3.png", "image/png", "corporate-slide-3.png", 9123));
    let mut media_posts: Vec<SampleMediaPost> = Vec::new();
    let hero = sample_post(ids.hero, "corporate-hero-main", "メインキービジュアル", "サイトを象徴するビジュアルです", "2026-05-01T00:00:00Z", "publish");
    let hero_metas = vec![meta("float", "none"), meta("margin", "0")];
    proof {
        assert(metas_view(hero_metas@) =~= seq![("float"@, "none"@), ("margin"@, "0"@)]);
    }
    media_posts.push(SampleMediaPost { post: hero, attachment: 0, metas: hero_metas });
    let slide = sample_post(ids.carousel, "corporate-slide-spring", "春の新生活キャンペーン", "", "2026-05-10T00:00:00Z", "publish");
    let slide_metas = vec![meta("alt", "春の新生活キャンペーン")];
    proof {
        assert(metas_view(slide_metas@) =~= seq![("alt"@, "春の新生活キャンペーン"@)]);
    }
    media_posts.push(SampleMediaPost { post: slide, attachment: 1, metas: slide_metas });
    let slide = sample_post(ids.carousel, "corporate-slide-case-study", "導入事例を公開しました", "", "2026-05-10T00:00:00Z", "publish");
    let slide_metas = vec![meta("alt", "導入事例を公開しました")];
    proof {
        assert(metas_view(slide_metas@) =~= seq![("alt"@, "導入事例を公開しました"@)]);
    }
    media_posts.push(SampleMediaPost { post: slide, attachment: 2, metas: slide_metas });
    let slide = sample_post(ids.carousel, "corporate-slide-seminar", "6月 セミナー開催のご案内", "", "2026-05-10T00:00:00Z", "publish");
    let slide_metas = vec![meta("alt", "6月 セミナー開催のご案内")];
    proof {
        assert(metas_view(slide_metas@) =~= seq![("alt"@, "6月 セミナー開催のご案内"@)]);
    }
    media_posts.push(SampleMediaPost { post: slide, attachment: 3, metas: slide_metas });
    let p = SampleContentPlan { posts, attachments, media_posts };
    assert(content_plan_view(p).posts =~= corporate_posts_spec(*ids));
    assert(content_plan_view(p).attachments =~= corporate_attachments_spec());
    assert(content_plan_view(p).media_posts =~= corporate_media_posts_spec(*ids));
    p
}

/// The posts, attachments and media entries that a sample layout set
/// installs for its placeholders.
pub fn sample_content_plan(set: SampleSetKind, ids: &PlaceholderIds) -> (p: SampleContentPlan)
    ensures
        content_plan_view(p) == sample_content_spec(set, *ids),
{
    match set {
        SampleSetKind::Bicycle => bicycle_content(ids),
        SampleSetKind::Corporate => corporate_content(ids),
    }
}

} // verus!
