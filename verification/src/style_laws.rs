//! How things look on the screen, and what the fields are called.

use vstd::prelude::*;

use crate::app::AppView;
use crate::forms::AuthType;
use crate::forms::ConnectFocus;
use crate::forms::FormTunnelFocus;
use crate::popups::ListBoxView;
use crate::popups::PopupView;
use crate::screen::tunnel_row;
use crate::screen_laws::coloured;
use crate::styles::Color;
use crate::styles::SpanView;
use crate::styles::Style;
use crate::tunnel::TunnelInfoView;

verus! {

/// As the terminal writes, bold or not.
pub open spec fn uncoloured(bold: bool) -> Style {
    Style { fg: None, bg: None, bold }
}

/// Bold and black on a colour.
pub open spec fn upon(color: Color) -> Style {
    Style { fg: Some(Color::Black), bg: Some(color), bold: true }
}

/// The styles of the pieces of a line.
pub open spec fn styles_of(line: Seq<SpanView>) -> Seq<Style> {
    line.map_values(|s: SpanView| s.style)
}

/// Whether a text is that name of a field, with a mark in front where the field has the focus.
pub open spec fn named(text: Seq<char>, name: Seq<char>, focused: bool) -> bool {
    &&& focused ==> text == "▶ "@ + name
    &&& !focused ==> text == "  "@ + name
}

/// Whether the name of a field and what stands in it look as they should: both stand out where
/// the field has the focus, and a hint in an empty field is dim.
pub open spec fn field_looks(
    line: Seq<SpanView>,
    typed: Seq<char>,
    focused: bool,
    color: Color,
) -> bool {
    &&& focused ==> line[0].style == coloured(Color::Cyan, true)
    &&& !focused ==> line[0].style == coloured(Color::Gray, false)
    &&& focused ==> line[1].style == upon(Color::Cyan)
    &&& !focused && typed.len() == 0 ==> line[1].style == coloured(Color::DarkGray, false)
    &&& !focused && typed.len() > 0 ==> line[1].style == coloured(color, true)
}

/// Whether a list looks as it should: it stands out where it has the focus.
pub open spec fn list_looks(list: ListBoxView, focused: bool) -> bool {
    &&& focused ==> list.title_style == coloured(Color::Yellow, true)
    &&& !focused ==> list.title_style == coloured(Color::Gray, false)
    &&& focused ==> list.border_style == coloured(Color::Yellow, true)
    &&& !focused ==> list.border_style == coloured(Color::DarkGray, false)
    &&& focused ==> list.highlight == upon(Color::Yellow)
    &&& !focused ==> list.highlight == (Style {
        fg: Some(Color::White),
        bg: Some(Color::DarkGray),
        bold: false,
    })
}

/// The frame begins with the name of the program and what is shown in it, and a message stands
/// behind a dot.
pub proof fn lemma_title_pieces(app: AppView)
    ensures
        ({
            let title = app.backdrop().title;
            let some = app.hosts.len() > 0;
            let said = app.status is Some;
            &&& title[0].text == " ⚡ mtui "@
            &&& title[0].style == coloured(Color::Cyan, true)
            &&& some ==> title[1].text == "· 主机列表 "@
            &&& !some ==> title[1].text == "· 多主机 SSH 动态隧道管理 "@
            &&& title[1].style == uncoloured(true)
            &&& title[2].style == coloured(Color::DarkGray, false)
            &&& some && said ==> title.len() == 5 && title[3].text == "· "@ && title[3].style
                == coloured(Color::DarkGray, false)
            &&& some && !said ==> title.len() == 3
            &&& !some && said ==> title.len() == 4 && title[2].text == "· "@
            &&& !some && !said ==> title.len() == 3
        }),
{
}

/// In a tab the name of the host stands out and the numbers are dim; below, the address of the
/// host that is shown stands out from what it is called.
pub proof fn lemma_tab_styles(app: AppView, i: int)
    ensures
        0 <= i < app.hosts.len() ==> {
            let tabs = app.backdrop().tabs;
            &&& tabs[i][0].style == coloured(Color::DarkGray, false)
            &&& tabs[i][2].style == uncoloured(true)
            &&& tabs[i][3].style == coloured(Color::DarkGray, false)
            &&& tabs.last()[0].style == coloured(Color::DarkGray, false)
        },
        app.active_host < app.hosts.len() ==> {
            let line = app.backdrop().host_line->0;
            &&& line[0].style == coloured(Color::Gray, false)
            &&& line[1].style == coloured(Color::White, true)
            &&& line[2].style == coloured(Color::Gray, false)
            &&& line[4].style == coloured(Color::Gray, false)
            &&& line[5].style == coloured(Color::Cyan, false)
        },
{
}

/// Only whether it runs is coloured in the row of a tunnel, and a stopped one is dim as a
/// whole.
pub proof fn lemma_row_styles(t: TunnelInfoView, i: int)
    ensures
        1 <= i < 8 ==> tunnel_row(t).cells[i].style == uncoloured(false),
        t.enabled ==> tunnel_row(t).style == uncoloured(false),
{
}

/// Without a host, the keys stand out among what is said.
pub proof fn lemma_welcome_styles(app: AppView)
    requires
        !(app.mode is Log),
        app.active_host >= app.hosts.len(),
    ensures
        ({
            let lines = app.backdrop().body->Welcome_0;
            let dim = coloured(Color::DarkGray, false);
            let soft = coloured(Color::Gray, false);
            &&& styles_of(lines[1]) == seq![coloured(Color::Cyan, true)]
            &&& styles_of(lines[3]) == seq![uncoloured(false)]
            &&& styles_of(lines[4]) == seq![dim, coloured(Color::Yellow, true), soft]
            &&& styles_of(lines[5]) == seq![dim, coloured(Color::Red, true), soft]
        }),
{
    let lines = app.backdrop().body->Welcome_0;
    let dim = coloured(Color::DarkGray, false);
    let soft = coloured(Color::Gray, false);
    assert(styles_of(lines[1]) =~= seq![coloured(Color::Cyan, true)]);
    assert(styles_of(lines[3]) =~= seq![uncoloured(false)]);
    assert(styles_of(lines[4]) =~= seq![dim, coloured(Color::Yellow, true), soft]);
    assert(styles_of(lines[5]) =~= seq![dim, coloured(Color::Red, true), soft]);
}

/// The fields of the form for a host have their names, with the mark and the look of the one
/// that has the focus. The way to log in that is chosen stands out.
pub proof fn lemma_host_form_looks(app: AppView)
    requires
        app.mode is ConnectHost,
    ensures
        ({
            let f = app.form_connect;
            let p = app.popup();
            let on_target = f.focus == ConnectFocus::Target;
            let on_auth = f.focus == ConnectFocus::AuthTypeToggle;
            let on_secret = f.focus == ConnectFocus::AuthSecret;
            let key = f.auth_type == AuthType::KeyFile;
            let chosen = if on_auth {
                upon(Color::Cyan)
            } else {
                coloured(Color::Cyan, true)
            };
            let dim = coloured(Color::DarkGray, false);
            &&& p->target.len() == 2
            &&& named(p->target[0].text, "目标主机: "@, on_target)
            &&& field_looks(p->target, f.target, on_target, Color::White)
            &&& p->auth.len() == 5
            &&& named(p->auth[0].text, "认证方式: "@, on_auth)
            &&& on_auth ==> p->auth[0].style == coloured(Color::Cyan, true)
            &&& !on_auth ==> p->auth[0].style == coloured(Color::Gray, false)
            &&& p->auth[1].style == if key {
                chosen
            } else {
                dim
            }
            &&& p->auth[2].text == "   "@
            &&& p->auth[2].style == uncoloured(false)
            &&& p->auth[3].style == if key {
                dim
            } else {
                chosen
            }
            &&& p->auth[4].text == "   (按 空格 或 ←/→ 切换)"@
            &&& p->auth[4].style == dim
            &&& p->secret.len() == 2
            &&& key ==> named(p->secret[0].text, "私钥路径: "@, on_secret)
            &&& !key ==> named(p->secret[0].text, "登录密码: "@, on_secret)
            &&& key ==> field_looks(p->secret, f.key_path, on_secret, Color::White)
            &&& !key ==> field_looks(
                p->secret,
                Seq::new(vstd::utf8::encode_utf8(f.password).len(), |i: int| '•'),
                on_secret,
                Color::Yellow,
            )
            &&& list_looks(p->Host_list, f.focus == ConnectFocus::ConfigList)
        }),
{
    let password = app.form_connect.password;
    let dots = Seq::new(vstd::utf8::encode_utf8(password).len(), |i: int| '•');
    assert(crate::popups::dots(password) =~= dots);
}

/// The fields of the form for a tunnel have their names and explanations, with the mark and
/// the look of the one that has the focus.
pub proof fn lemma_tunnel_form_looks(app: AppView)
    requires
        app.mode is InputTunnel,
    ensures
        ({
            let f = app.form_tunnel;
            let p = app.popup();
            let on_local = f.focus == FormTunnelFocus::LocalPort;
            let on_remote = f.focus == FormTunnelFocus::RemoteTarget;
            let dim = coloured(Color::DarkGray, false);
            &&& p->local.len() == 3
            &&& named(p->local[0].text, "本地监听端口: "@, on_local)
            &&& field_looks(p->local, f.local_port, on_local, Color::White)
            &&& p->local[2].text == "   (本机监听并转发流量的端口)"@
            &&& p->local[2].style == dim
            &&& p->remote.len() == 3
            &&& named(p->remote[0].text, "远端目标服务: "@, on_remote)
            &&& field_looks(p->remote, f.remote, on_remote, Color::White)
            &&& p->remote[2].text == "   (格式 host:port 或 纯端口)"@
            &&& p->remote[2].style == dim
            &&& list_looks(p->Tunnel_list, f.focus == FormTunnelFocus::RemoteList)
        }),
{
}

/// The selected row of a list in a form stands out, and so does a host that is connected.
pub proof fn lemma_listed_styles(app: AppView, i: int)
    ensures
        app.mode is ConnectHost && 0 <= i < app.form_connect.config_hosts.len() ==> {
            let row = app.popup()->Host_list.rows[i];
            let marked = app.form_connect.focus == ConnectFocus::ConfigList && i
                == app.form_connect.config_selected;
            &&& row.style == uncoloured(false)
            &&& marked ==> row.cells[0].style == coloured(Color::Yellow, true)
            &&& !marked ==> row.cells[0].style == coloured(Color::Cyan, false)
            &&& row.cells[1].style == coloured(Color::White, false)
            &&& row.cells[2].style == coloured(Color::Gray, false)
            &&& row.cells[3].style == coloured(Color::Gray, false)
            &&& row.cells[4].style == coloured(Color::Green, false) || row.cells[4].style
                == coloured(Color::DarkGray, false)
            &&& row.cells[4].style == coloured(Color::Green, false) <==> exists|k: int|
                0 <= k < app.hosts.len() && (#[trigger] app.hosts[k]).id
                    == app.form_connect.config_hosts[i].alias
        },
        app.mode is InputTunnel && 0 <= i < app.remote_ports.len() ==> {
            let row = app.popup()->Tunnel_list.rows[i];
            let marked = app.form_tunnel.focus == FormTunnelFocus::RemoteList && i
                == app.ports_selected;
            &&& row.style == uncoloured(false)
            &&& marked ==> row.cells[0].style == coloured(Color::Yellow, true)
            &&& !marked ==> row.cells[0].style == coloured(Color::Cyan, false)
            &&& row.cells[1].style == coloured(Color::White, false)
        },
{
}

/// In the last line of a form the keys are coloured, each by what it does, and what they do is
/// not; in the lists the one that does most stands out.
pub proof fn lemma_hint_styles(app: AppView)
    ensures
        ({
            let plain = uncoloured(false);
            let strong = coloured(Color::Green, true);
            let green = coloured(Color::Green, false);
            let yellow = coloured(Color::Yellow, false);
            let cyan = coloured(Color::Cyan, false);
            let red = coloured(Color::Red, false);
            let gray = coloured(Color::Gray, false);
            let magenta = coloured(Color::Magenta, false);
            let p = app.popup();
            let fields = seq![yellow, plain, green, plain, cyan, plain, red, plain];
            &&& app.mode is ConnectHost && app.form_connect.focus == ConnectFocus::ConfigList
                ==> styles_of(p->Host_hint) == seq![
                strong,
                strong,
                cyan,
                plain,
                yellow,
                plain,
                gray,
                plain,
            ]
            &&& app.mode is ConnectHost && app.form_connect.focus != ConnectFocus::ConfigList
                ==> styles_of(p->Host_hint) == fields
            &&& app.mode is InputTunnel && app.form_tunnel.focus == FormTunnelFocus::RemoteList
                ==> styles_of(p->Tunnel_hint) == seq![
                strong,
                strong,
                cyan,
                plain,
                yellow,
                plain,
                magenta,
                plain,
                gray,
                plain,
            ]
            &&& app.mode is InputTunnel && app.form_tunnel.focus != FormTunnelFocus::RemoteList
                ==> styles_of(p->Tunnel_hint) == fields
        }),
{
    let plain = uncoloured(false);
    let strong = coloured(Color::Green, true);
    let green = coloured(Color::Green, false);
    let yellow = coloured(Color::Yellow, false);
    let cyan = coloured(Color::Cyan, false);
    let red = coloured(Color::Red, false);
    let gray = coloured(Color::Gray, false);
    let magenta = coloured(Color::Magenta, false);
    let fields = seq![yellow, plain, green, plain, cyan, plain, red, plain];
    let hint = match app.popup() {
        PopupView::Host { hint, .. } => hint,
        PopupView::Tunnel { hint, .. } => hint,
        PopupView::Closed => Seq::empty(),
    };
    if app.mode is ConnectHost && app.form_connect.focus == ConnectFocus::ConfigList {
        assert(styles_of(hint) =~= seq![
            strong,
            strong,
            cyan,
            plain,
            yellow,
            plain,
            gray,
            plain,
        ]);
    } else if app.mode is InputTunnel && app.form_tunnel.focus == FormTunnelFocus::RemoteList {
        assert(styles_of(hint) =~= seq![
            strong,
            strong,
            cyan,
            plain,
            yellow,
            plain,
            magenta,
            plain,
            gray,
            plain,
        ]);
    } else if app.mode is ConnectHost || app.mode is InputTunnel {
        assert(styles_of(hint) =~= fields);
    }
}

} // verus!
