//! Logging in to a host, step by step.

use vstd::prelude::*;

use crate::paths::FilePath;
use crate::paths::FilePathView;
use crate::target::AuthMethod;
use crate::target::AuthView;
use crate::target::ConnectParams;
use crate::target::ConnectParamsView;
use crate::text::dec;
use crate::tunnel::quoted;
use crate::tunnel::write_numbered;
use crate::tunnel::write_pair;
use crate::tunnel::write_quoted;

verus! {

/// Whether the key of a server is trusted. `known` is what the known hosts say of it: that it
/// is theirs, that they have none for this server, or nothing where it contradicts them. A
/// server that is seen for the first time is trusted.
pub fn trust_server_key(check_host_key: bool, known: Option<bool>) -> (r: bool)
    ensures
        r == (!check_host_key || known is Some),
{
    if !check_host_key {
        return true;
    }
    match known {
        Some(_) => true,
        None => false,
    }
}

/// What is to be done next, or how it ended.
#[derive(Debug, PartialEq, Eq)]
pub enum LoginStep {
    /// Connect to the server.
    Connect,
    /// Load the private key from that file.
    LoadKey(FilePath),
    /// Ask the server how it wants keys to be signed.
    AskHash,
    /// Log in with the key that was loaded.
    OfferKey,
    /// Log in with that password.
    OfferPassword(String),
    /// The server has let us in.
    Done,
    /// It came to nothing; the message.
    Fail(String),
}

/// A step as a mathematical value.
#[verifier::ext_equal]
pub enum LoginStepView {
    Connect,
    LoadKey(FilePathView),
    AskHash,
    OfferKey,
    OfferPassword(Seq<char>),
    Done,
    Fail(Seq<char>),
}

impl View for LoginStep {
    type V = LoginStepView;

    open spec fn view(&self) -> LoginStepView {
        match self {
            LoginStep::Connect => LoginStepView::Connect,
            LoginStep::LoadKey(path) => LoginStepView::LoadKey(path@),
            LoginStep::AskHash => LoginStepView::AskHash,
            LoginStep::OfferKey => LoginStepView::OfferKey,
            LoginStep::OfferPassword(password) => LoginStepView::OfferPassword(password@),
            LoginStep::Done => LoginStepView::Done,
            LoginStep::Fail(message) => LoginStepView::Fail(message@),
        }
    }
}

/// How a step came out: an error, or whether the server has let us in where it was asked to.
pub open spec fn reply_view(reply: Result<bool, String>) -> Result<bool, Seq<char>> {
    match reply {
        Ok(accepted) => Ok(accepted),
        Err(error) => Err(error@),
    }
}

/// What is said where the server does not let us in.
pub open spec fn login_refused(params: ConnectParamsView) -> Seq<char> {
    "SSH "@ + (match params.auth {
        AuthView::KeyFile(_) => "公钥"@,
        AuthView::Password(_) => "密码"@,
    }) + "认证失败（"@ + params.user + "@"@ + params.host + "）"@
}

/// What follows a step that came out as `reply` tells. A key file is shown as `key_shown`.
pub open spec fn login_next(
    params: ConnectParamsView,
    key_shown: Seq<char>,
    step: LoginStepView,
    reply: Result<bool, Seq<char>>,
) -> LoginStepView {
    match (step, reply) {
        (LoginStepView::Connect, Ok(_)) => match params.auth {
            AuthView::KeyFile(path) => LoginStepView::LoadKey(path),
            AuthView::Password(password) => LoginStepView::OfferPassword(password),
        },
        (LoginStepView::LoadKey(_), Ok(_)) => LoginStepView::AskHash,
        (LoginStepView::AskHash, Ok(_)) => LoginStepView::OfferKey,
        (LoginStepView::OfferKey, Ok(accepted)) => if accepted {
            LoginStepView::Done
        } else {
            LoginStepView::Fail(login_refused(params))
        },
        (LoginStepView::OfferPassword(_), Ok(accepted)) => if accepted {
            LoginStepView::Done
        } else {
            LoginStepView::Fail(login_refused(params))
        },
        (LoginStepView::Connect, Err(error)) => LoginStepView::Fail(
            "连接 "@ + params.host + ":"@ + dec(params.ssh_port as nat) + " 失败："@ + error,
        ),
        (LoginStepView::LoadKey(_), Err(error)) => LoginStepView::Fail(
            quoted("加载私钥 "@, key_shown, " 失败："@) + error,
        ),
        (LoginStepView::AskHash, Err(error)) => LoginStepView::Fail(
            "获取服务器 RSA 算法失败："@ + error,
        ),
        (LoginStepView::OfferKey, Err(error)) => LoginStepView::Fail(
            "SSH 公钥认证请求失败："@ + error,
        ),
        (LoginStepView::OfferPassword(_), Err(error)) => LoginStepView::Fail(
            "SSH 密码认证请求失败："@ + error,
        ),
        (LoginStepView::Done, _) => step,
        (LoginStepView::Fail(_), _) => step,
    }
}

fn write_refused(params: &ConnectParams) -> (s: String)
    ensures
        s@ == login_refused(params@),
{
    let mut s = match &params.auth {
        AuthMethod::KeyFile(_) => write_pair("SSH ", "公钥"),
        AuthMethod::Password(_) => write_pair("SSH ", "密码"),
    };
    s.append("认证失败（");
    s.append(params.user.as_str());
    s.append("@");
    s.append(params.host.as_str());
    s.append("）");
    s
}

/// What follows a step that came out as `reply` tells. A key file is shown as `key_shown`.
pub fn next_step(
    params: &ConnectParams,
    key_shown: &str,
    step: LoginStep,
    reply: Result<bool, String>,
) -> (r: LoginStep)
    ensures
        r@ == login_next(params@, key_shown@, step@, reply_view(reply)),
{
    match reply {
        Ok(accepted) => match step {
            LoginStep::Connect => match &params.auth {
                AuthMethod::KeyFile(path) => LoginStep::LoadKey(path.clone()),
                AuthMethod::Password(password) => LoginStep::OfferPassword(password.clone()),
            },
            LoginStep::LoadKey(_) => LoginStep::AskHash,
            LoginStep::AskHash => LoginStep::OfferKey,
            LoginStep::OfferKey => if accepted {
                LoginStep::Done
            } else {
                LoginStep::Fail(write_refused(params))
            },
            LoginStep::OfferPassword(_) => if accepted {
                LoginStep::Done
            } else {
                LoginStep::Fail(write_refused(params))
            },
            LoginStep::Done => LoginStep::Done,
            LoginStep::Fail(message) => LoginStep::Fail(message),
        },
        Err(error) => match step {
            LoginStep::Connect => {
                let before = write_quoted("连接 ", params.host.as_str(), ":");
                let mut message = write_numbered(
                    before.as_str(),
                    params.ssh_port as u64,
                    " 失败：",
                );
                message.append(error.as_str());
                LoginStep::Fail(message)
            },
            LoginStep::LoadKey(_) => {
                let mut message = write_quoted("加载私钥 ", key_shown, " 失败：");
                message.append(error.as_str());
                LoginStep::Fail(message)
            },
            LoginStep::AskHash => LoginStep::Fail(
                write_pair("获取服务器 RSA 算法失败：", error.as_str()),
            ),
            LoginStep::OfferKey => LoginStep::Fail(
                write_pair("SSH 公钥认证请求失败：", error.as_str()),
            ),
            LoginStep::OfferPassword(_) => LoginStep::Fail(
                write_pair("SSH 密码认证请求失败：", error.as_str()),
            ),
            LoginStep::Done => LoginStep::Done,
            LoginStep::Fail(message) => LoginStep::Fail(message),
        },
    }
}

// ---------- Laws ----------

/// The step that follows the first `n` replies.
pub open spec fn login_run(
    params: ConnectParamsView,
    key_shown: Seq<char>,
    replies: Seq<Result<bool, Seq<char>>>,
    n: int,
) -> LoginStepView
    decreases n,
{
    if n <= 0 {
        LoginStepView::Connect
    } else {
        login_next(params, key_shown, login_run(params, key_shown, replies, n - 1), replies[n - 1])
    }
}

/// A login ends after four steps at most, whatever they bring.
pub proof fn lemma_login_ends(
    params: ConnectParamsView,
    key_shown: Seq<char>,
    replies: Seq<Result<bool, Seq<char>>>,
    n: int,
)
    requires
        4 <= n <= replies.len(),
    ensures
        login_run(params, key_shown, replies, n) is Done || login_run(
            params,
            key_shown,
            replies,
            n,
        ) is Fail,
    decreases n,
{
    reveal_with_fuel(login_run, 5);
    if n > 4 {
        lemma_login_ends(params, key_shown, replies, n - 1);
    }
}

/// Nobody is let in but by the server, and with the key or the password that was meant.
pub proof fn lemma_login_by_server_only(
    params: ConnectParamsView,
    key_shown: Seq<char>,
    step: LoginStepView,
    reply: Result<bool, Seq<char>>,
)
    requires
        step !is Done,
        login_next(params, key_shown, step, reply) is Done,
    ensures
        step is OfferKey || step is OfferPassword,
        reply == Ok::<bool, Seq<char>>(true),
{
}

/// A login with a key loads that key, asks the server how to sign, and offers the key; one
/// with a password offers that password; and what the server says to the offer decides. Any
/// step that goes wrong ends it with a message that says which, and with the error.
pub proof fn lemma_login_steps(params: ConnectParamsView, shown: Seq<char>, error: Seq<char>)
    ensures
        ({
            let next = |step: LoginStepView, reply: Result<bool, Seq<char>>|
                login_next(params, shown, step, reply);
            let way = match params.auth {
                AuthView::KeyFile(_) => "公钥"@,
                AuthView::Password(_) => "密码"@,
            };
            let refused = LoginStepView::Fail(
                "SSH "@ + way + "认证失败（"@ + params.user + "@"@ + params.host + "）"@,
            );
            &&& match params.auth {
                AuthView::KeyFile(path) => forall|ok: bool| #[trigger]
                    next(LoginStepView::Connect, Ok(ok)) == LoginStepView::LoadKey(path),
                AuthView::Password(password) => forall|ok: bool| #[trigger]
                    next(LoginStepView::Connect, Ok(ok)) == LoginStepView::OfferPassword(password),
            }
            &&& forall|path: FilePathView, ok: bool| #[trigger]
                next(LoginStepView::LoadKey(path), Ok(ok)) == LoginStepView::AskHash
            &&& forall|ok: bool| #[trigger]
                next(LoginStepView::AskHash, Ok(ok)) == LoginStepView::OfferKey
            &&& next(LoginStepView::OfferKey, Ok(true)) == LoginStepView::Done
            &&& next(LoginStepView::OfferKey, Ok(false)) == refused
            &&& forall|password: Seq<char>| #[trigger]
                next(LoginStepView::OfferPassword(password), Ok(true)) == LoginStepView::Done
            &&& forall|password: Seq<char>| #[trigger]
                next(LoginStepView::OfferPassword(password), Ok(false)) == refused
            &&& next(LoginStepView::Connect, Err(error)) == LoginStepView::Fail(
                "连接 "@ + params.host + ":"@ + dec(params.ssh_port as nat) + " 失败："@ + error,
            )
            &&& forall|path: FilePathView| #[trigger]
                next(LoginStepView::LoadKey(path), Err(error)) == LoginStepView::Fail(
                    "加载私钥 "@ + shown + " 失败："@ + error,
                )
            &&& next(LoginStepView::AskHash, Err(error)) == LoginStepView::Fail(
                "获取服务器 RSA 算法失败："@ + error,
            )
            &&& next(LoginStepView::OfferKey, Err(error)) == LoginStepView::Fail(
                "SSH 公钥认证请求失败："@ + error,
            )
            &&& forall|password: Seq<char>| #[trigger]
                next(LoginStepView::OfferPassword(password), Err(error)) == LoginStepView::Fail(
                    "SSH 密码认证请求失败："@ + error,
                )
        }),
{
}

/// A login that goes well goes through the key, or the password, that is meant, and no other.
pub proof fn lemma_login_run(
    params: ConnectParamsView,
    shown: Seq<char>,
    replies: Seq<Result<bool, Seq<char>>>,
)
    requires
        replies.len() >= 4,
        forall|i: int| 0 <= i < 4 ==> #[trigger] replies[i] == Ok::<bool, Seq<char>>(true),
    ensures
        login_run(params, shown, replies, 0) is Connect,
        params.auth is KeyFile ==> {
            &&& login_run(params, shown, replies, 1) == LoginStepView::LoadKey(
                params.auth->KeyFile_0,
            )
            &&& login_run(params, shown, replies, 2) is AskHash
            &&& login_run(params, shown, replies, 3) is OfferKey
            &&& login_run(params, shown, replies, 4) is Done
        },
        params.auth is Password ==> {
            &&& login_run(params, shown, replies, 1) == LoginStepView::OfferPassword(
                params.auth->Password_0,
            )
            &&& login_run(params, shown, replies, 2) is Done
        },
{
    reveal_with_fuel(login_run, 5);
}

} // verus!
