//! The field registry: the closed enumeration of recognised configuration
//! keys, their canonical spelling, their canonical order, and the
//! case-insensitive lookup the parser resolves key tokens with.

use vstd::prelude::*;

use crate::text::{spec_lower, str_eq_ignore_case};

verus! {

/// Number of recognised configuration keys.
pub const FIELD_COUNT: u64 = 106;

/// One recognised key of the host-connection configuration grammar.
#[derive(Clone, Copy, Debug, PartialEq, Eq, Structural, Hash)]
pub enum Field {
    Host,
    Match,
    AddKeysToAgent,
    AddressFamily,
    BatchMode,
    BindAddress,
    BindInterface,
    CanonicalDomains,
    CanonicalizeFallbackLocal,
    CanonicalizeFallbackLock,
    CanonicalizeHostname,
    CanonicalizeMaxDots,
    CanonicalizePermittedCNAMEs,
    CASignatureAlgorithms,
    CertificateFile,
    ChannelTimeout,
    CheckHostIP,
    Ciphers,
    ClearAllForwardings,
    Compression,
    ConnectionAttempts,
    ConnectTimeout,
    ControlMaster,
    ControlPath,
    ControlPersist,
    DynamicForward,
    EnableEscapeCommandline,
    EnableSSHKeysign,
    EscapeChar,
    ExitOnForwardFailure,
    FingerprintHash,
    ForkAfterAuthentication,
    ForwardAgent,
    ForwardX11,
    ForwardX11Timeout,
    ForwardX11Trusted,
    GatewayPorts,
    GlobalKnownHostsFile,
    GSSAPIAuthentication,
    GSSAPIDelegateCredentials,
    HashKnownHosts,
    HostbasedAcceptedAlgorithms,
    HostbasedAuthentication,
    HostbasedKeyTypes,
    HostKeyAlgorithms,
    HostKeyAlias,
    HostName,
    IdentitiesOnly,
    IdentityAgent,
    IdentityFile,
    IgnoreUnknown,
    Include,
    IPQoS,
    KbdInteractiveAuthentication,
    KbdInteractiveDevices,
    KexAlgorithms,
    KnownHostsCommand,
    LocalCommand,
    LocalForward,
    LogLevel,
    LogVerbose,
    Mac,
    MACs,
    NoHostAuthenticationForLocalhost,
    NumberOfPasswordPrompts,
    ObscureKeystrokeTiming,
    PasswordAuthentication,
    PermitLocalCommand,
    PermitRemoteOpen,
    PKCS11Provider,
    Port,
    PreferredAuthentications,
    ProxyCommand,
    ProxyJump,
    ProxyUseFdpass,
    PubkeyAcceptedAlgorithms,
    PubkeyAcceptedKeyTypes,
    PubkeyAuthentication,
    RekeyLimit,
    RemoteCommand,
    RemoteForward,
    RequestTTY,
    RequiredRSASize,
    RevokedHostKeys,
    SecurityKeyProvider,
    SendEnv,
    ServerAliveCountMax,
    ServerAliveInterval,
    SessionType,
    SetEnv,
    StdinNull,
    StreamLocalBindMask,
    StreamLocalBindUnlink,
    StrictHostKeyChecking,
    SyslogFacility,
    Tag,
    TCPKeepAlive,
    Tunnel,
    TunnelDevice,
    UpdateHostKeys,
    UseKeychain,
    User,
    UserKnownHostsFile,
    VerifyHostKeyDNS,
    VisualHostKey,
    XAuthLocation,
}

/// The canonical position of a field; extra arguments are folded in this
/// order, which is also the order the enumeration declares its variants in.
pub open spec fn spec_field_rank(f: Field) -> int {
    match f {
        Field::Host => 0,
        Field::Match => 1,
        Field::AddKeysToAgent => 2,
        Field::AddressFamily => 3,
        Field::BatchMode => 4,
        Field::BindAddress => 5,
        Field::BindInterface => 6,
        Field::CanonicalDomains => 7,
        Field::CanonicalizeFallbackLocal => 8,
        Field::CanonicalizeFallbackLock => 9,
        Field::CanonicalizeHostname => 10,
        Field::CanonicalizeMaxDots => 11,
        Field::CanonicalizePermittedCNAMEs => 12,
        Field::CASignatureAlgorithms => 13,
        Field::CertificateFile => 14,
        Field::ChannelTimeout => 15,
        Field::CheckHostIP => 16,
        Field::Ciphers => 17,
        Field::ClearAllForwardings => 18,
        Field::Compression => 19,
        Field::ConnectionAttempts => 20,
        Field::ConnectTimeout => 21,
        Field::ControlMaster => 22,
        Field::ControlPath => 23,
        Field::ControlPersist => 24,
        Field::DynamicForward => 25,
        Field::EnableEscapeCommandline => 26,
        Field::EnableSSHKeysign => 27,
        Field::EscapeChar => 28,
        Field::ExitOnForwardFailure => 29,
        Field::FingerprintHash => 30,
        Field::ForkAfterAuthentication => 31,
        Field::ForwardAgent => 32,
        Field::ForwardX11 => 33,
        Field::ForwardX11Timeout => 34,
        Field::ForwardX11Trusted => 35,
        Field::GatewayPorts => 36,
        Field::GlobalKnownHostsFile => 37,
        Field::GSSAPIAuthentication => 38,
        Field::GSSAPIDelegateCredentials => 39,
        Field::HashKnownHosts => 40,
        Field::HostbasedAcceptedAlgorithms => 41,
        Field::HostbasedAuthentication => 42,
        Field::HostbasedKeyTypes => 43,
        Field::HostKeyAlgorithms => 44,
        Field::HostKeyAlias => 45,
        Field::HostName => 46,
        Field::IdentitiesOnly => 47,
        Field::IdentityAgent => 48,
        Field::IdentityFile => 49,
        Field::IgnoreUnknown => 50,
        Field::Include => 51,
        Field::IPQoS => 52,
        Field::KbdInteractiveAuthentication => 53,
        Field::KbdInteractiveDevices => 54,
        Field::KexAlgorithms => 55,
        Field::KnownHostsCommand => 56,
        Field::LocalCommand => 57,
        Field::LocalForward => 58,
        Field::LogLevel => 59,
        Field::LogVerbose => 60,
        Field::Mac => 61,
        Field::MACs => 62,
        Field::NoHostAuthenticationForLocalhost => 63,
        Field::NumberOfPasswordPrompts => 64,
        Field::ObscureKeystrokeTiming => 65,
        Field::PasswordAuthentication => 66,
        Field::PermitLocalCommand => 67,
        Field::PermitRemoteOpen => 68,
        Field::PKCS11Provider => 69,
        Field::Port => 70,
        Field::PreferredAuthentications => 71,
        Field::ProxyCommand => 72,
        Field::ProxyJump => 73,
        Field::ProxyUseFdpass => 74,
        Field::PubkeyAcceptedAlgorithms => 75,
        Field::PubkeyAcceptedKeyTypes => 76,
        Field::PubkeyAuthentication => 77,
        Field::RekeyLimit => 78,
        Field::RemoteCommand => 79,
        Field::RemoteForward => 80,
        Field::RequestTTY => 81,
        Field::RequiredRSASize => 82,
        Field::RevokedHostKeys => 83,
        Field::SecurityKeyProvider => 84,
        Field::SendEnv => 85,
        Field::ServerAliveCountMax => 86,
        Field::ServerAliveInterval => 87,
        Field::SessionType => 88,
        Field::SetEnv => 89,
        Field::StdinNull => 90,
        Field::StreamLocalBindMask => 91,
        Field::StreamLocalBindUnlink => 92,
        Field::StrictHostKeyChecking => 93,
        Field::SyslogFacility => 94,
        Field::Tag => 95,
        Field::TCPKeepAlive => 96,
        Field::Tunnel => 97,
        Field::TunnelDevice => 98,
        Field::UpdateHostKeys => 99,
        Field::UseKeychain => 100,
        Field::User => 101,
        Field::UserKnownHostsFile => 102,
        Field::VerifyHostKeyDNS => 103,
        Field::VisualHostKey => 104,
        Field::XAuthLocation => 105,
    }
}

pub fn field_rank(f: Field) -> (r: u64)
    ensures
        r == spec_field_rank(f),
{
    match f {
        Field::Host => 0,
        Field::Match => 1,
        Field::AddKeysToAgent => 2,
        Field::AddressFamily => 3,
        Field::BatchMode => 4,
        Field::BindAddress => 5,
        Field::BindInterface => 6,
        Field::CanonicalDomains => 7,
        Field::CanonicalizeFallbackLocal => 8,
        Field::CanonicalizeFallbackLock => 9,
        Field::CanonicalizeHostname => 10,
        Field::CanonicalizeMaxDots => 11,
        Field::CanonicalizePermittedCNAMEs => 12,
        Field::CASignatureAlgorithms => 13,
        Field::CertificateFile => 14,
        Field::ChannelTimeout => 15,
        Field::CheckHostIP => 16,
        Field::Ciphers => 17,
        Field::ClearAllForwardings => 18,
        Field::Compression => 19,
        Field::ConnectionAttempts => 20,
        Field::ConnectTimeout => 21,
        Field::ControlMaster => 22,
        Field::ControlPath => 23,
        Field::ControlPersist => 24,
        Field::DynamicForward => 25,
        Field::EnableEscapeCommandline => 26,
        Field::EnableSSHKeysign => 27,
        Field::EscapeChar => 28,
        Field::ExitOnForwardFailure => 29,
        Field::FingerprintHash => 30,
        Field::ForkAfterAuthentication => 31,
        Field::ForwardAgent => 32,
        Field::ForwardX11 => 33,
        Field::ForwardX11Timeout => 34,
        Field::ForwardX11Trusted => 35,
        Field::GatewayPorts => 36,
        Field::GlobalKnownHostsFile => 37,
        Field::GSSAPIAuthentication => 38,
        Field::GSSAPIDelegateCredentials => 39,
        Field::HashKnownHosts => 40,
        Field::HostbasedAcceptedAlgorithms => 41,
        Field::HostbasedAuthentication => 42,
        Field::HostbasedKeyTypes => 43,
        Field::HostKeyAlgorithms => 44,
        Field::HostKeyAlias => 45,
        Field::HostName => 46,
        Field::IdentitiesOnly => 47,
        Field::IdentityAgent => 48,
        Field::IdentityFile => 49,
        Field::IgnoreUnknown => 50,
        Field::Include => 51,
        Field::IPQoS => 52,
        Field::KbdInteractiveAuthentication => 53,
        Field::KbdInteractiveDevices => 54,
        Field::KexAlgorithms => 55,
        Field::KnownHostsCommand => 56,
        Field::LocalCommand => 57,
        Field::LocalForward => 58,
        Field::LogLevel => 59,
        Field::LogVerbose => 60,
        Field::Mac => 61,
        Field::MACs => 62,
        Field::NoHostAuthenticationForLocalhost => 63,
        Field::NumberOfPasswordPrompts => 64,
        Field::ObscureKeystrokeTiming => 65,
        Field::PasswordAuthentication => 66,
        Field::PermitLocalCommand => 67,
        Field::PermitRemoteOpen => 68,
        Field::PKCS11Provider => 69,
        Field::Port => 70,
        Field::PreferredAuthentications => 71,
        Field::ProxyCommand => 72,
        Field::ProxyJump => 73,
        Field::ProxyUseFdpass => 74,
        Field::PubkeyAcceptedAlgorithms => 75,
        Field::PubkeyAcceptedKeyTypes => 76,
        Field::PubkeyAuthentication => 77,
        Field::RekeyLimit => 78,
        Field::RemoteCommand => 79,
        Field::RemoteForward => 80,
        Field::RequestTTY => 81,
        Field::RequiredRSASize => 82,
        Field::RevokedHostKeys => 83,
        Field::SecurityKeyProvider => 84,
        Field::SendEnv => 85,
        Field::ServerAliveCountMax => 86,
        Field::ServerAliveInterval => 87,
        Field::SessionType => 88,
        Field::SetEnv => 89,
        Field::StdinNull => 90,
        Field::StreamLocalBindMask => 91,
        Field::StreamLocalBindUnlink => 92,
        Field::StrictHostKeyChecking => 93,
        Field::SyslogFacility => 94,
        Field::Tag => 95,
        Field::TCPKeepAlive => 96,
        Field::Tunnel => 97,
        Field::TunnelDevice => 98,
        Field::UpdateHostKeys => 99,
        Field::UseKeychain => 100,
        Field::User => 101,
        Field::UserKnownHostsFile => 102,
        Field::VerifyHostKeyDNS => 103,
        Field::VisualHostKey => 104,
        Field::XAuthLocation => 105,
    }
}

/// The field at a given canonical position.
pub open spec fn spec_field_of_rank(i: int) -> Field {
    if i == 0 {
        Field::Host
    } else if i == 1 {
        Field::Match
    } else if i == 2 {
        Field::AddKeysToAgent
    } else if i == 3 {
        Field::AddressFamily
    } else if i == 4 {
        Field::BatchMode
    } else if i == 5 {
        Field::BindAddress
    } else if i == 6 {
        Field::BindInterface
    } else if i == 7 {
        Field::CanonicalDomains
    } else if i == 8 {
        Field::CanonicalizeFallbackLocal
    } else if i == 9 {
        Field::CanonicalizeFallbackLock
    } else if i == 10 {
        Field::CanonicalizeHostname
    } else if i == 11 {
        Field::CanonicalizeMaxDots
    } else if i == 12 {
        Field::CanonicalizePermittedCNAMEs
    } else if i == 13 {
        Field::CASignatureAlgorithms
    } else if i == 14 {
        Field::CertificateFile
    } else if i == 15 {
        Field::ChannelTimeout
    } else if i == 16 {
        Field::CheckHostIP
    } else if i == 17 {
        Field::Ciphers
    } else if i == 18 {
        Field::ClearAllForwardings
    } else if i == 19 {
        Field::Compression
    } else if i == 20 {
        Field::ConnectionAttempts
    } else if i == 21 {
        Field::ConnectTimeout
    } else if i == 22 {
        Field::ControlMaster
    } else if i == 23 {
        Field::ControlPath
    } else if i == 24 {
        Field::ControlPersist
    } else if i == 25 {
        Field::DynamicForward
    } else if i == 26 {
        Field::EnableEscapeCommandline
    } else if i == 27 {
        Field::EnableSSHKeysign
    } else if i == 28 {
        Field::EscapeChar
    } else if i == 29 {
        Field::ExitOnForwardFailure
    } else if i == 30 {
        Field::FingerprintHash
    } else if i == 31 {
        Field::ForkAfterAuthentication
    } else if i == 32 {
        Field::ForwardAgent
    } else if i == 33 {
        Field::ForwardX11
    } else if i == 34 {
        Field::ForwardX11Timeout
    } else if i == 35 {
        Field::ForwardX11Trusted
    } else if i == 36 {
        Field::GatewayPorts
    } else if i == 37 {
        Field::GlobalKnownHostsFile
    } else if i == 38 {
        Field::GSSAPIAuthentication
    } else if i == 39 {
        Field::GSSAPIDelegateCredentials
    } else if i == 40 {
        Field::HashKnownHosts
    } else if i == 41 {
        Field::HostbasedAcceptedAlgorithms
    } else if i == 42 {
        Field::HostbasedAuthentication
    } else if i == 43 {
        Field::HostbasedKeyTypes
    } else if i == 44 {
        Field::HostKeyAlgorithms
    } else if i == 45 {
        Field::HostKeyAlias
    } else if i == 46 {
        Field::HostName
    } else if i == 47 {
        Field::IdentitiesOnly
    } else if i == 48 {
        Field::IdentityAgent
    } else if i == 49 {
        Field::IdentityFile
    } else if i == 50 {
        Field::IgnoreUnknown
    } else if i == 51 {
        Field::Include
    } else if i == 52 {
        Field::IPQoS
    } else if i == 53 {
        Field::KbdInteractiveAuthentication
    } else if i == 54 {
        Field::KbdInteractiveDevices
    } else if i == 55 {
        Field::KexAlgorithms
    } else if i == 56 {
        Field::KnownHostsCommand
    } else if i == 57 {
        Field::LocalCommand
    } else if i == 58 {
        Field::LocalForward
    } else if i == 59 {
        Field::LogLevel
    } else if i == 60 {
        Field::LogVerbose
    } else if i == 61 {
        Field::Mac
    } else if i == 62 {
        Field::MACs
    } else if i == 63 {
        Field::NoHostAuthenticationForLocalhost
    } else if i == 64 {
        Field::NumberOfPasswordPrompts
    } else if i == 65 {
        Field::ObscureKeystrokeTiming
    } else if i == 66 {
        Field::PasswordAuthentication
    } else if i == 67 {
        Field::PermitLocalCommand
    } else if i == 68 {
        Field::PermitRemoteOpen
    } else if i == 69 {
        Field::PKCS11Provider
    } else if i == 70 {
        Field::Port
    } else if i == 71 {
        Field::PreferredAuthentications
    } else if i == 72 {
        Field::ProxyCommand
    } else if i == 73 {
        Field::ProxyJump
    } else if i == 74 {
        Field::ProxyUseFdpass
    } else if i == 75 {
        Field::PubkeyAcceptedAlgorithms
    } else if i == 76 {
        Field::PubkeyAcceptedKeyTypes
    } else if i == 77 {
        Field::PubkeyAuthentication
    } else if i == 78 {
        Field::RekeyLimit
    } else if i == 79 {
        Field::RemoteCommand
    } else if i == 80 {
        Field::RemoteForward
    } else if i == 81 {
        Field::RequestTTY
    } else if i == 82 {
        Field::RequiredRSASize
    } else if i == 83 {
        Field::RevokedHostKeys
    } else if i == 84 {
        Field::SecurityKeyProvider
    } else if i == 85 {
        Field::SendEnv
    } else if i == 86 {
        Field::ServerAliveCountMax
    } else if i == 87 {
        Field::ServerAliveInterval
    } else if i == 88 {
        Field::SessionType
    } else if i == 89 {
        Field::SetEnv
    } else if i == 90 {
        Field::StdinNull
    } else if i == 91 {
        Field::StreamLocalBindMask
    } else if i == 92 {
        Field::StreamLocalBindUnlink
    } else if i == 93 {
        Field::StrictHostKeyChecking
    } else if i == 94 {
        Field::SyslogFacility
    } else if i == 95 {
        Field::Tag
    } else if i == 96 {
        Field::TCPKeepAlive
    } else if i == 97 {
        Field::Tunnel
    } else if i == 98 {
        Field::TunnelDevice
    } else if i == 99 {
        Field::UpdateHostKeys
    } else if i == 100 {
        Field::UseKeychain
    } else if i == 101 {
        Field::User
    } else if i == 102 {
        Field::UserKnownHostsFile
    } else if i == 103 {
        Field::VerifyHostKeyDNS
    } else if i == 104 {
        Field::VisualHostKey
    } else {
        Field::XAuthLocation
    }
}

fn field_of_rank(i: u64) -> (r: Field)
    requires
        i < FIELD_COUNT,
    ensures
        r == spec_field_of_rank(i as int),
{
    match i {
        0 => Field::Host,
        1 => Field::Match,
        2 => Field::AddKeysToAgent,
        3 => Field::AddressFamily,
        4 => Field::BatchMode,
        5 => Field::BindAddress,
        6 => Field::BindInterface,
        7 => Field::CanonicalDomains,
        8 => Field::CanonicalizeFallbackLocal,
        9 => Field::CanonicalizeFallbackLock,
        10 => Field::CanonicalizeHostname,
        11 => Field::CanonicalizeMaxDots,
        12 => Field::CanonicalizePermittedCNAMEs,
        13 => Field::CASignatureAlgorithms,
        14 => Field::CertificateFile,
        15 => Field::ChannelTimeout,
        16 => Field::CheckHostIP,
        17 => Field::Ciphers,
        18 => Field::ClearAllForwardings,
        19 => Field::Compression,
        20 => Field::ConnectionAttempts,
        21 => Field::ConnectTimeout,
        22 => Field::ControlMaster,
        23 => Field::ControlPath,
        24 => Field::ControlPersist,
        25 => Field::DynamicForward,
        26 => Field::EnableEscapeCommandline,
        27 => Field::EnableSSHKeysign,
        28 => Field::EscapeChar,
        29 => Field::ExitOnForwardFailure,
        30 => Field::FingerprintHash,
        31 => Field::ForkAfterAuthentication,
        32 => Field::ForwardAgent,
        33 => Field::ForwardX11,
        34 => Field::ForwardX11Timeout,
        35 => Field::ForwardX11Trusted,
        36 => Field::GatewayPorts,
        37 => Field::GlobalKnownHostsFile,
        38 => Field::GSSAPIAuthentication,
        39 => Field::GSSAPIDelegateCredentials,
        40 => Field::HashKnownHosts,
        41 => Field::HostbasedAcceptedAlgorithms,
        42 => Field::HostbasedAuthentication,
        43 => Field::HostbasedKeyTypes,
        44 => Field::HostKeyAlgorithms,
        45 => Field::HostKeyAlias,
        46 => Field::HostName,
        47 => Field::IdentitiesOnly,
        48 => Field::IdentityAgent,
        49 => Field::IdentityFile,
        50 => Field::IgnoreUnknown,
        51 => Field::Include,
        52 => Field::IPQoS,
        53 => Field::KbdInteractiveAuthentication,
        54 => Field::KbdInteractiveDevices,
        55 => Field::KexAlgorithms,
        56 => Field::KnownHostsCommand,
        57 => Field::LocalCommand,
        58 => Field::LocalForward,
        59 => Field::LogLevel,
        60 => Field::LogVerbose,
        61 => Field::Mac,
        62 => Field::MACs,
        63 => Field::NoHostAuthenticationForLocalhost,
        64 => Field::NumberOfPasswordPrompts,
        65 => Field::ObscureKeystrokeTiming,
        66 => Field::PasswordAuthentication,
        67 => Field::PermitLocalCommand,
        68 => Field::PermitRemoteOpen,
        69 => Field::PKCS11Provider,
        70 => Field::Port,
        71 => Field::PreferredAuthentications,
        72 => Field::ProxyCommand,
        73 => Field::ProxyJump,
        74 => Field::ProxyUseFdpass,
        75 => Field::PubkeyAcceptedAlgorithms,
        76 => Field::PubkeyAcceptedKeyTypes,
        77 => Field::PubkeyAuthentication,
        78 => Field::RekeyLimit,
        79 => Field::RemoteCommand,
        80 => Field::RemoteForward,
        81 => Field::RequestTTY,
        82 => Field::RequiredRSASize,
        83 => Field::RevokedHostKeys,
        84 => Field::SecurityKeyProvider,
        85 => Field::SendEnv,
        86 => Field::ServerAliveCountMax,
        87 => Field::ServerAliveInterval,
        88 => Field::SessionType,
        89 => Field::SetEnv,
        90 => Field::StdinNull,
        91 => Field::StreamLocalBindMask,
        92 => Field::StreamLocalBindUnlink,
        93 => Field::StrictHostKeyChecking,
        94 => Field::SyslogFacility,
        95 => Field::Tag,
        96 => Field::TCPKeepAlive,
        97 => Field::Tunnel,
        98 => Field::TunnelDevice,
        99 => Field::UpdateHostKeys,
        100 => Field::UseKeychain,
        101 => Field::User,
        102 => Field::UserKnownHostsFile,
        103 => Field::VerifyHostKeyDNS,
        104 => Field::VisualHostKey,
        _ => Field::XAuthLocation,
    }
}

/// The canonical spelling of a field, as the grammar documents it.
pub open spec fn spec_field_name(f: Field) -> Seq<char> {
    match f {
        Field::Host => "Host"@,
        Field::Match => "Match"@,
        Field::AddKeysToAgent => "AddKeysToAgent"@,
        Field::AddressFamily => "AddressFamily"@,
        Field::BatchMode => "BatchMode"@,
        Field::BindAddress => "BindAddress"@,
        Field::BindInterface => "BindInterface"@,
        Field::CanonicalDomains => "CanonicalDomains"@,
        Field::CanonicalizeFallbackLocal => "CanonicalizeFallbackLocal"@,
        Field::CanonicalizeFallbackLock => "CanonicalizeFallbackLock"@,
        Field::CanonicalizeHostname => "CanonicalizeHostname"@,
        Field::CanonicalizeMaxDots => "CanonicalizeMaxDots"@,
        Field::CanonicalizePermittedCNAMEs => "CanonicalizePermittedCNAMEs"@,
        Field::CASignatureAlgorithms => "CASignatureAlgorithms"@,
        Field::CertificateFile => "CertificateFile"@,
        Field::ChannelTimeout => "ChannelTimeout"@,
        Field::CheckHostIP => "CheckHostIP"@,
        Field::Ciphers => "Ciphers"@,
        Field::ClearAllForwardings => "ClearAllForwardings"@,
        Field::Compression => "Compression"@,
        Field::ConnectionAttempts => "ConnectionAttempts"@,
        Field::ConnectTimeout => "ConnectTimeout"@,
        Field::ControlMaster => "ControlMaster"@,
        Field::ControlPath => "ControlPath"@,
        Field::ControlPersist => "ControlPersist"@,
        Field::DynamicForward => "DynamicForward"@,
        Field::EnableEscapeCommandline => "EnableEscapeCommandline"@,
        Field::EnableSSHKeysign => "EnableSSHKeysign"@,
        Field::EscapeChar => "EscapeChar"@,
        Field::ExitOnForwardFailure => "ExitOnForwardFailure"@,
        Field::FingerprintHash => "FingerprintHash"@,
        Field::ForkAfterAuthentication => "ForkAfterAuthentication"@,
        Field::ForwardAgent => "ForwardAgent"@,
        Field::ForwardX11 => "ForwardX11"@,
        Field::ForwardX11Timeout => "ForwardX11Timeout"@,
        Field::ForwardX11Trusted => "ForwardX11Trusted"@,
        Field::GatewayPorts => "GatewayPorts"@,
        Field::GlobalKnownHostsFile => "GlobalKnownHostsFile"@,
        Field::GSSAPIAuthentication => "GSSAPIAuthentication"@,
        Field::GSSAPIDelegateCredentials => "GSSAPIDelegateCredentials"@,
        Field::HashKnownHosts => "HashKnownHosts"@,
        Field::HostbasedAcceptedAlgorithms => "HostbasedAcceptedAlgorithms"@,
        Field::HostbasedAuthentication => "HostbasedAuthentication"@,
        Field::HostbasedKeyTypes => "HostbasedKeyTypes"@,
        Field::HostKeyAlgorithms => "HostKeyAlgorithms"@,
        Field::HostKeyAlias => "HostKeyAlias"@,
        Field::HostName => "HostName"@,
        Field::IdentitiesOnly => "IdentitiesOnly"@,
        Field::IdentityAgent => "IdentityAgent"@,
        Field::IdentityFile => "IdentityFile"@,
        Field::IgnoreUnknown => "IgnoreUnknown"@,
        Field::Include => "Include"@,
        Field::IPQoS => "IPQoS"@,
        Field::KbdInteractiveAuthentication => "KbdInteractiveAuthentication"@,
        Field::KbdInteractiveDevices => "KbdInteractiveDevices"@,
        Field::KexAlgorithms => "KexAlgorithms"@,
        Field::KnownHostsCommand => "KnownHostsCommand"@,
        Field::LocalCommand => "LocalCommand"@,
        Field::LocalForward => "LocalForward"@,
        Field::LogLevel => "LogLevel"@,
        Field::LogVerbose => "LogVerbose"@,
        Field::Mac => "Mac"@,
        Field::MACs => "MACs"@,
        Field::NoHostAuthenticationForLocalhost => "NoHostAuthenticationForLocalhost"@,
        Field::NumberOfPasswordPrompts => "NumberOfPasswordPrompts"@,
        Field::ObscureKeystrokeTiming => "ObscureKeystrokeTiming"@,
        Field::PasswordAuthentication => "PasswordAuthentication"@,
        Field::PermitLocalCommand => "PermitLocalCommand"@,
        Field::PermitRemoteOpen => "PermitRemoteOpen"@,
        Field::PKCS11Provider => "PKCS11Provider"@,
        Field::Port => "Port"@,
        Field::PreferredAuthentications => "PreferredAuthentications"@,
        Field::ProxyCommand => "ProxyCommand"@,
        Field::ProxyJump => "ProxyJump"@,
        Field::ProxyUseFdpass => "ProxyUseFdpass"@,
        Field::PubkeyAcceptedAlgorithms => "PubkeyAcceptedAlgorithms"@,
        Field::PubkeyAcceptedKeyTypes => "PubkeyAcceptedKeyTypes"@,
        Field::PubkeyAuthentication => "PubkeyAuthentication"@,
        Field::RekeyLimit => "RekeyLimit"@,
        Field::RemoteCommand => "RemoteCommand"@,
        Field::RemoteForward => "RemoteForward"@,
        Field::RequestTTY => "RequestTTY"@,
        Field::RequiredRSASize => "RequiredRSASize"@,
        Field::RevokedHostKeys => "RevokedHostKeys"@,
        Field::SecurityKeyProvider => "SecurityKeyProvider"@,
        Field::SendEnv => "SendEnv"@,
        Field::ServerAliveCountMax => "ServerAliveCountMax"@,
        Field::ServerAliveInterval => "ServerAliveInterval"@,
        Field::SessionType => "SessionType"@,
        Field::SetEnv => "SetEnv"@,
        Field::StdinNull => "StdinNull"@,
        Field::StreamLocalBindMask => "StreamLocalBindMask"@,
        Field::StreamLocalBindUnlink => "StreamLocalBindUnlink"@,
        Field::StrictHostKeyChecking => "StrictHostKeyChecking"@,
        Field::SyslogFacility => "SyslogFacility"@,
        Field::Tag => "Tag"@,
        Field::TCPKeepAlive => "TCPKeepAlive"@,
        Field::Tunnel => "Tunnel"@,
        Field::TunnelDevice => "TunnelDevice"@,
        Field::UpdateHostKeys => "UpdateHostKeys"@,
        Field::UseKeychain => "UseKeychain"@,
        Field::User => "User"@,
        Field::UserKnownHostsFile => "UserKnownHostsFile"@,
        Field::VerifyHostKeyDNS => "VerifyHostKeyDNS"@,
        Field::VisualHostKey => "VisualHostKey"@,
        Field::XAuthLocation => "XAuthLocation"@,
    }
}

pub fn field_name(f: Field) -> (r: &'static str)
    ensures
        r@ == spec_field_name(f),
{
    match f {
        Field::Host => "Host",
        Field::Match => "Match",
        Field::AddKeysToAgent => "AddKeysToAgent",
        Field::AddressFamily => "AddressFamily",
        Field::BatchMode => "BatchMode",
        Field::BindAddress => "BindAddress",
        Field::BindInterface => "BindInterface",
        Field::CanonicalDomains => "CanonicalDomains",
        Field::CanonicalizeFallbackLocal => "CanonicalizeFallbackLocal",
        Field::CanonicalizeFallbackLock => "CanonicalizeFallbackLock",
        Field::CanonicalizeHostname => "CanonicalizeHostname",
        Field::CanonicalizeMaxDots => "CanonicalizeMaxDots",
        Field::CanonicalizePermittedCNAMEs => "CanonicalizePermittedCNAMEs",
        Field::CASignatureAlgorithms => "CASignatureAlgorithms",
        Field::CertificateFile => "CertificateFile",
        Field::ChannelTimeout => "ChannelTimeout",
        Field::CheckHostIP => "CheckHostIP",
        Field::Ciphers => "Ciphers",
        Field::ClearAllForwardings => "ClearAllForwardings",
        Field::Compression => "Compression",
        Field::ConnectionAttempts => "ConnectionAttempts",
        Field::ConnectTimeout => "ConnectTimeout",
        Field::ControlMaster => "ControlMaster",
        Field::ControlPath => "ControlPath",
        Field::ControlPersist => "ControlPersist",
        Field::DynamicForward => "DynamicForward",
        Field::EnableEscapeCommandline => "EnableEscapeCommandline",
        Field::EnableSSHKeysign => "EnableSSHKeysign",
        Field::EscapeChar => "EscapeChar",
        Field::ExitOnForwardFailure => "ExitOnForwardFailure",
        Field::FingerprintHash => "FingerprintHash",
        Field::ForkAfterAuthentication => "ForkAfterAuthentication",
        Field::ForwardAgent => "ForwardAgent",
        Field::ForwardX11 => "ForwardX11",
        Field::ForwardX11Timeout => "ForwardX11Timeout",
        Field::ForwardX11Trusted => "ForwardX11Trusted",
        Field::GatewayPorts => "GatewayPorts",
        Field::GlobalKnownHostsFile => "GlobalKnownHostsFile",
        Field::GSSAPIAuthentication => "GSSAPIAuthentication",
        Field::GSSAPIDelegateCredentials => "GSSAPIDelegateCredentials",
        Field::HashKnownHosts => "HashKnownHosts",
        Field::HostbasedAcceptedAlgorithms => "HostbasedAcceptedAlgorithms",
        Field::HostbasedAuthentication => "HostbasedAuthentication",
        Field::HostbasedKeyTypes => "HostbasedKeyTypes",
        Field::HostKeyAlgorithms => "HostKeyAlgorithms",
        Field::HostKeyAlias => "HostKeyAlias",
        Field::HostName => "HostName",
        Field::IdentitiesOnly => "IdentitiesOnly",
        Field::IdentityAgent => "IdentityAgent",
        Field::IdentityFile => "IdentityFile",
        Field::IgnoreUnknown => "IgnoreUnknown",
        Field::Include => "Include",
        Field::IPQoS => "IPQoS",
        Field::KbdInteractiveAuthentication => "KbdInteractiveAuthentication",
        Field::KbdInteractiveDevices => "KbdInteractiveDevices",
        Field::KexAlgorithms => "KexAlgorithms",
        Field::KnownHostsCommand => "KnownHostsCommand",
        Field::LocalCommand => "LocalCommand",
        Field::LocalForward => "LocalForward",
        Field::LogLevel => "LogLevel",
        Field::LogVerbose => "LogVerbose",
        Field::Mac => "Mac",
        Field::MACs => "MACs",
        Field::NoHostAuthenticationForLocalhost => "NoHostAuthenticationForLocalhost",
        Field::NumberOfPasswordPrompts => "NumberOfPasswordPrompts",
        Field::ObscureKeystrokeTiming => "ObscureKeystrokeTiming",
        Field::PasswordAuthentication => "PasswordAuthentication",
        Field::PermitLocalCommand => "PermitLocalCommand",
        Field::PermitRemoteOpen => "PermitRemoteOpen",
        Field::PKCS11Provider => "PKCS11Provider",
        Field::Port => "Port",
        Field::PreferredAuthentications => "PreferredAuthentications",
        Field::ProxyCommand => "ProxyCommand",
        Field::ProxyJump => "ProxyJump",
        Field::ProxyUseFdpass => "ProxyUseFdpass",
        Field::PubkeyAcceptedAlgorithms => "PubkeyAcceptedAlgorithms",
        Field::PubkeyAcceptedKeyTypes => "PubkeyAcceptedKeyTypes",
        Field::PubkeyAuthentication => "PubkeyAuthentication",
        Field::RekeyLimit => "RekeyLimit",
        Field::RemoteCommand => "RemoteCommand",
        Field::RemoteForward => "RemoteForward",
        Field::RequestTTY => "RequestTTY",
        Field::RequiredRSASize => "RequiredRSASize",
        Field::RevokedHostKeys => "RevokedHostKeys",
        Field::SecurityKeyProvider => "SecurityKeyProvider",
        Field::SendEnv => "SendEnv",
        Field::ServerAliveCountMax => "ServerAliveCountMax",
        Field::ServerAliveInterval => "ServerAliveInterval",
        Field::SessionType => "SessionType",
        Field::SetEnv => "SetEnv",
        Field::StdinNull => "StdinNull",
        Field::StreamLocalBindMask => "StreamLocalBindMask",
        Field::StreamLocalBindUnlink => "StreamLocalBindUnlink",
        Field::StrictHostKeyChecking => "StrictHostKeyChecking",
        Field::SyslogFacility => "SyslogFacility",
        Field::Tag => "Tag",
        Field::TCPKeepAlive => "TCPKeepAlive",
        Field::Tunnel => "Tunnel",
        Field::TunnelDevice => "TunnelDevice",
        Field::UpdateHostKeys => "UpdateHostKeys",
        Field::UseKeychain => "UseKeychain",
        Field::User => "User",
        Field::UserKnownHostsFile => "UserKnownHostsFile",
        Field::VerifyHostKeyDNS => "VerifyHostKeyDNS",
        Field::VisualHostKey => "VisualHostKey",
        Field::XAuthLocation => "XAuthLocation",
    }
}

/// Every field sits at its own canonical position, within bounds, and the
/// position determines the field.
pub proof fn lemma_field_rank_inverse()
    ensures
        forall|f: Field| 0 <= #[trigger] spec_field_rank(f) < FIELD_COUNT,
        forall|f: Field| spec_field_of_rank(#[trigger] spec_field_rank(f)) == f,
        forall|f1: Field, f2: Field|
            #[trigger] spec_field_rank(f1) == #[trigger] spec_field_rank(f2) ==> f1 == f2,
{
    assert(forall|f: Field| 0 <= #[trigger] spec_field_rank(f) < FIELD_COUNT);
    assert(forall|f: Field| spec_field_of_rank(#[trigger] spec_field_rank(f)) == f);
}

/// Case-insensitive lookup of a key token, scanning the registry in
/// canonical order.
pub open spec fn spec_lookup_from(key: Seq<char>, i: int) -> Option<Field>
    decreases FIELD_COUNT - i,
{
    if i < 0 || i >= FIELD_COUNT {
        None
    } else {
        let f = spec_field_of_rank(i);
        if spec_lower(spec_field_name(f)) == spec_lower(key) {
            Some(f)
        } else {
            spec_lookup_from(key, i + 1)
        }
    }
}

/// The field whose canonical spelling matches the key, ignoring case;
/// `None` for an unrecognised key.
pub open spec fn spec_lookup(key: Seq<char>) -> Option<Field> {
    spec_lookup_from(key, 0)
}

pub fn lookup(key: &str) -> (r: Option<Field>)
    ensures
        r == spec_lookup(key@),
{
    let mut i: u64 = 0;
    while i < FIELD_COUNT
        invariant
            i <= FIELD_COUNT,
            spec_lookup(key@) == spec_lookup_from(key@, i as int),
        decreases FIELD_COUNT - i,
    {
        let f = field_of_rank(i);
        if str_eq_ignore_case(key, field_name(f)) {
            return Some(f);
        }
        i = i + 1;
    }
    None
}

} // verus!
