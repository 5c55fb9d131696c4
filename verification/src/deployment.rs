//! How a server is deployed, in lines for the operator. They hold no secret.

use crate::text::{chars_of, joined, texts};
use vstd::prelude::*;

verus! {

#[derive(Clone, Copy, Debug, PartialEq, Eq, Structural)]
pub enum Platform {
    Windows,
    Linux,
    Unix,
    Other,
}

/// The text with every single quote written twice.
pub open spec fn doubled(text: Seq<char>) -> Seq<char>
    decreases text.len(),
{
    if text.len() == 0 {
        text
    } else if text.last() == '\'' {
        doubled(text.drop_last()) + seq!['\'', '\'']
    } else {
        doubled(text.drop_last()).push(text.last())
    }
}

/// A literal of PowerShell: nothing in it is expanded.
pub open spec fn quoted(text: Seq<char>) -> Seq<char> {
    seq!['\''] + doubled(text) + seq!['\'']
}

/// What the inside of a literal stands for, if it is one: quotes come in pairs.
pub open spec fn literal_inside(text: Seq<char>) -> Option<Seq<char>>
    decreases text.len(),
{
    if text.len() == 0 {
        Some(text)
    } else if text.last() != '\'' {
        match literal_inside(text.drop_last()) {
            Some(front) => Some(front.push(text.last())),
            None => None,
        }
    } else if text.len() >= 2 && text[text.len() - 2] == '\'' {
        match literal_inside(text.take(text.len() - 2)) {
            Some(front) => Some(front.push('\'')),
            None => None,
        }
    } else {
        None
    }
}

/// What a literal of PowerShell stands for.
pub open spec fn literal_value(text: Seq<char>) -> Option<Seq<char>> {
    if text.len() >= 2 && text[0] == '\'' && text.last() == '\'' {
        literal_inside(text.subrange(1, text.len() - 1))
    } else {
        None
    }
}

proof fn doubled_stands_for_the_text(text: Seq<char>)
    ensures
        literal_inside(doubled(text)) == Some(text),
    decreases text.len(),
{
    if text.len() > 0 {
        let front = text.drop_last();
        doubled_stands_for_the_text(front);
        assert(front.push(text.last()) =~= text);
        if text.last() == '\'' {
            assert(doubled(text).take(doubled(text).len() - 2) =~= doubled(front));
        } else {
            assert(doubled(text).drop_last() =~= doubled(front));
        }
    }
}

/// A quoted text stands for the text, whatever it holds.
pub proof fn a_quoted_text_stands_for_itself(text: Seq<char>)
    ensures
        literal_value(quoted(text)) == Some(text),
{
    doubled_stands_for_the_text(text);
    assert(quoted(text).subrange(1, quoted(text).len() - 1) =~= doubled(text));
}

/// Quotes a text for PowerShell.
#[verifier::loop_isolation(false)]
pub fn powershell_quote(value: &str) -> (r: String)
    ensures
        r@ == quoted(value@),
{
    let chars: Vec<char> = chars_of(value);
    let mut out: String = "'".to_owned();
    proof {
        reveal_strlit("'");
    }
    let mut i: usize = 0;
    assert(chars@.take(0) =~= Seq::<char>::empty());
    assert(out@ =~= seq!['\''] + doubled(chars@.take(0)));
    while i < chars.len()
        invariant
            i <= chars@.len(),
            out@ == seq!['\''] + doubled(chars@.take(i as int)),
        decreases chars@.len() - i,
    {
        assert(chars@.take(i + 1).drop_last() =~= chars@.take(i as int));
        if chars[i] == '\'' {
            out.push('\'');
        }
        out.push(chars[i]);
        assert(out@ =~= seq!['\''] + doubled(chars@.take(i + 1)));
        i += 1;
    }
    out.push('\'');
    assert(chars@.take(i as int) =~= chars@);
    assert(out@ =~= quoted(value@));
    out
}

/// The lines for Linux that do not depend on where the files are.
pub open spec fn linux_unit() -> Seq<Seq<char>> {
    seq![
        "将下面内容保存为 /etc/systemd/system/remote-open-power.service"@,
        "[Unit]"@,
        "Description=RemoteOpenPower secure Wake-on-LAN daemon"@,
        "Wants=network-online.target"@,
        "After=network-online.target"@,
        "[Service]"@,
        "Type=simple"@,
        "User=remote-open-power"@,
        "Group=remote-open-power"@,
        "UMask=0077"@,
        "LogsDirectory=remote-open-power"@,
        "Environment=REMOTE_OPEN_POWER_LOG_DIR=/var/log/remote-open-power"@,
        "ExecStart=/usr/local/bin/remote-open-power --server --config=/etc/remote-open-power/remote-open-power.toml"@,
        "Restart=on-failure"@,
        "RestartSec=5s"@,
        "NoNewPrivileges=true"@,
        "CapabilityBoundingSet="@,
        "ProtectSystem=strict"@,
        "ProtectHome=true"@,
        "PrivateTmp=true"@,
        "RestrictAddressFamilies=AF_INET AF_INET6"@,
        "TasksMax=96"@,
        "LimitNOFILE=256"@,
        "LimitCORE=0"@,
        "[Install]"@,
        "WantedBy=multi-user.target"@,
        "sudo systemctl daemon-reload"@,
        "sudo systemctl enable --now remote-open-power"@,
        "前台验证: /usr/local/bin/remote-open-power --server --config /etc/remote-open-power/remote-open-power.toml"@,
        "PSK 保存在配置文件，不放入 ExecStart。"@,
        "运行日志位于 /var/log/remote-open-power。"@,
    ]
}

/// The lines that tell how to deploy a server.
pub open spec fn deployment_of(
    platform: Platform,
    executable: Seq<char>,
    config: Seq<char>,
) -> Seq<Seq<char>> {
    match platform {
        Platform::Windows => seq![
            "Windows 前台启动指令"@,
            "& "@ + quoted(executable) + " --server --config "@ + quoted(config),
            "配置与 PSK 保存在 TOML，不放入命令行或日志。"@,
        ],
        Platform::Linux => seq![
            "Linux systemd 部署"@,
            "sudo install -Dm0755 "@ + executable + " /usr/local/bin/remote-open-power"@,
            "sudo install -d -m0750 -o root -g remote-open-power /etc/remote-open-power"@,
            "sudo install -m0640 -o root -g remote-open-power "@ + config
                + " /etc/remote-open-power/remote-open-power.toml"@,
        ] + linux_unit(),
        Platform::Unix => seq![
            "Unix 前台启动指令"@,
            "./RemoteOpenPower --server --config "@ + config,
            "配置与 PSK 保存在 TOML，不放入命令行。"@,
        ],
        Platform::Other => seq!["当前平台没有可用的部署模板。"@],
    }
}

fn push_linux_unit(lines: &mut Vec<String>)
    ensures
        texts(final(lines)@) == texts(old(lines)@) + linux_unit(),
{
    lines.push("将下面内容保存为 /etc/systemd/system/remote-open-power.service".to_owned());
    lines.push("[Unit]".to_owned());
    lines.push("Description=RemoteOpenPower secure Wake-on-LAN daemon".to_owned());
    lines.push("Wants=network-online.target".to_owned());
    lines.push("After=network-online.target".to_owned());
    lines.push("[Service]".to_owned());
    lines.push("Type=simple".to_owned());
    lines.push("User=remote-open-power".to_owned());
    lines.push("Group=remote-open-power".to_owned());
    lines.push("UMask=0077".to_owned());
    lines.push("LogsDirectory=remote-open-power".to_owned());
    lines.push("Environment=REMOTE_OPEN_POWER_LOG_DIR=/var/log/remote-open-power".to_owned());
    lines.push("ExecStart=/usr/local/bin/remote-open-power --server --config=/etc/remote-open-power/remote-open-power.toml".to_owned());
    lines.push("Restart=on-failure".to_owned());
    lines.push("RestartSec=5s".to_owned());
    lines.push("NoNewPrivileges=true".to_owned());
    lines.push("CapabilityBoundingSet=".to_owned());
    lines.push("ProtectSystem=strict".to_owned());
    lines.push("ProtectHome=true".to_owned());
    lines.push("PrivateTmp=true".to_owned());
    lines.push("RestrictAddressFamilies=AF_INET AF_INET6".to_owned());
    lines.push("TasksMax=96".to_owned());
    lines.push("LimitNOFILE=256".to_owned());
    lines.push("LimitCORE=0".to_owned());
    lines.push("[Install]".to_owned());
    lines.push("WantedBy=multi-user.target".to_owned());
    lines.push("sudo systemctl daemon-reload".to_owned());
    lines.push("sudo systemctl enable --now remote-open-power".to_owned());
    lines.push("前台验证: /usr/local/bin/remote-open-power --server --config /etc/remote-open-power/remote-open-power.toml".to_owned());
    lines.push("PSK 保存在配置文件，不放入 ExecStart。".to_owned());
    lines.push("运行日志位于 /var/log/remote-open-power。".to_owned());
    assert(texts(lines@) =~= texts(old(lines)@) + linux_unit());
}

/// Tells how to deploy a server with the settings at `config`.
pub fn deployment_lines(platform: Platform, executable: &str, config: &str) -> (r: Vec<String>)
    ensures
        texts(r@) == deployment_of(platform, executable@, config@),
{
    let mut lines: Vec<String> = Vec::new();
    match platform {
        Platform::Windows => {
            let mut line: String = joined("& ", &powershell_quote(executable));
            line.append(" --server --config ");
            line.append(&powershell_quote(config));
            lines.push("Windows 前台启动指令".to_owned());
            lines.push(line);
            lines.push("配置与 PSK 保存在 TOML，不放入命令行或日志。".to_owned());
        },
        Platform::Linux => {
            let mut install: String = joined("sudo install -Dm0755 ", executable);
            install.append(" /usr/local/bin/remote-open-power");
            let mut settings: String = joined(
                "sudo install -m0640 -o root -g remote-open-power ",
                config,
            );
            settings.append(" /etc/remote-open-power/remote-open-power.toml");
            lines.push("Linux systemd 部署".to_owned());
            lines.push(install);
            lines.push(
                "sudo install -d -m0750 -o root -g remote-open-power /etc/remote-open-power".to_owned(),
            );
            lines.push(settings);
            let ghost all = deployment_of(platform, executable@, config@);
            assert(texts(lines@) =~= all.take(4));
            push_linux_unit(&mut lines);
            assert(all =~= all.take(4) + linux_unit());
        },
        Platform::Unix => {
            lines.push("Unix 前台启动指令".to_owned());
            lines.push(joined("./RemoteOpenPower --server --config ", config));
            lines.push("配置与 PSK 保存在 TOML，不放入命令行。".to_owned());
        },
        Platform::Other => {
            lines.push("当前平台没有可用的部署模板。".to_owned());
        },
    }
    assert(texts(lines@) =~= deployment_of(platform, executable@, config@));
    lines
}

} // verus!
