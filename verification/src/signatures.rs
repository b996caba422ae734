//! The functions to look for, and the signatures they are known by.
use crate::pattern::{
    law_signatures_concatenate, lemma_spelled_entry, lemma_tokens_concat, sig_pattern, spells,
};
use crate::text::{hex_digit_value, tokens};
use vstd::prelude::*;

verus! {

/// A function and its signatures, the preferred one first.
pub struct SignatureDefinition {
    pub name: &'static str,
    pub sigs: Vec<&'static str>,
}

impl View for SignatureDefinition {
    type V = (Seq<char>, Seq<Seq<char>>);

    open spec fn view(&self) -> (Seq<char>, Seq<Seq<char>>) {
        (self.name@, Seq::new(self.sigs@.len(), |i: int| self.sigs@[i]@))
    }
}

/// The names and signatures of a list of definitions.
pub open spec fn table_of(defs: Seq<SignatureDefinition>) -> Seq<(Seq<char>, Seq<Seq<char>>)> {
    Seq::new(defs.len(), |i: int| defs[i]@)
}

fn one_sig(name: &'static str, sig: &'static str) -> (def: SignatureDefinition)
    ensures
        def@ == (name@, seq![sig@]),
        def.name@ == name@,
        def.sigs@.len() == 1,
        def.sigs@[0]@ == sig@,
{
    let def: SignatureDefinition = SignatureDefinition { name, sigs: vec![sig] };
    assert(def@.1 =~= seq![sig@]);
    def
}

fn two_sigs(name: &'static str, first: &'static str, second: &'static str) -> (def:
    SignatureDefinition)
    ensures
        def@ == (name@, seq![first@, second@]),
        def.name@ == name@,
        def.sigs@.len() == 2,
        def.sigs@[0]@ == first@,
        def.sigs@[1]@ == second@,
{
    let def: SignatureDefinition = SignatureDefinition { name, sigs: vec![first, second] };
    assert(def@.1 =~= seq![first@, second@]);
    def
}

/// The functions of `steamclient64.dll` and their signatures.
pub open spec fn steamclient_table() -> Seq<(Seq<char>, Seq<Seq<char>>)> {
    seq![
        (
            "BBuildAndAsyncSendFrame"@,
            seq![
                "48 8B C4 55 48 8D 68 A1 48 81 EC C0 00 00 00 48 89 70 18"@,
                "48 8B C4 55 48 8D 68 A1 48 81 EC C0 00 00 00"@,
            ],
        ),
        (
            "BuildDepotDependency"@,
            seq![
                "48 8B C4 4C 89 48 20 89 50 10 48 89 48 08 55 57"@,
            ],
        ),
        (
            "BuildSpawnEnvBlock"@,
            seq![
                "4C 89 4C 24 20 4C 89 44 24 18 48 89 54 24 10 48 89 4C 24 08 55 53 56 57 41 54 41 55 41 56 41 57 48 8D AC 24 B8 FD FF FF"@,
                "48 89 5C 24 20 4C 89 44 24 18 48 89 54 24 10 48 89 4C 24 08 55 56 57 41 54 41 55 41 56 41 57 48 8D AC 24 B0 FD FF FF"@,
            ],
        ),
        (
            "CUtlBufferEnsureCapacity"@,
            seq![
                "48 89 5C 24 08 57 48 83 EC 30 48 8B D9 8D 7A 01"@,
                "48 89 5C 24 08 57 48 83 EC 30 0F B6 41 1F"@,
            ],
        ),
        (
            "CUtlMemoryGrow"@,
            seq![
                "48 89 5C 24 10 57 48 83 EC 30 8B FA 48 8B D9 8B 51 08 8B 49 10 8D 04 39"@,
                "48 89 5C 24 08 48 89 74 24 10 57 48 83 EC 30 8B 71 10 48 8B D9 8B 49 08"@,
            ],
        ),
        (
            "CheckAppOwnership"@,
            seq![
                "48 8B C4 89 50 10 48 89 48 08 55 53"@,
                "48 8B C4 89 50 10 55 53 48 8D 68 D8"@,
            ],
        ),
        (
            "CloseAppCloud"@,
            seq![
                "48 89 5C 24 10 57 48 83 EC 30 8B FA 48 8B D9 85 D2"@,
                "48 89 5C 24 18 57 48 83 EC 30 8B FA"@,
            ],
        ),
        (
            "ConfigStoreGetBinary"@,
            seq![
                "40 53 55 56 57 48 83 EC 38 48 63 FA 49 8B E9"@,
                "48 89 5C 24 08 48 89 6C 24 10 48 89 74 24 18 57 48 83 EC 30 48 63 FA 49 8B E9"@,
            ],
        ),
        (
            "GetAppDataFromAppInfo"@,
            seq![
                "40 53 55 56 57 41 56 41 57 48 81 EC 78 01 00 00"@,
                "48 89 5C 24 08 48 89 6C 24 10 48 89 74 24 18 57 41 56 41 57 48 81 EC 70 01 00 00"@,
            ],
        ),
        (
            "GetAppIDForCurrentPipe"@,
            seq![
                "8B 81 30 0D 00 00 83 F8 FF 74 ??"@,
                "48 83 EC 08 8B 81 30 0D 00 00"@,
            ],
        ),
        (
            "GetDecryptionKey"@,
            seq![
                "40 53 55 56 57 48 81 EC 48 01 00 00 8B FA"@,
            ],
        ),
        (
            "GetOrAddAppData"@,
            seq![
                "48 83 EC 58 48 8B 05 ?? ?? ?? ?? 48 89 5C 24 68 48 89 6C 24 70"@,
                "48 83 EC 68 48 8B 05 ?? ?? ?? ?? 48 89 5C 24 78 48 89 6C 24 60"@,
            ],
        ),
        (
            "GetPackageInfo"@,
            seq![
                "48 89 5C 24 18 89 54 24 10 55 56 57 48 83 EC 20 44 8B 49 20"@,
                "48 89 6C 24 20 41 56 48 83 EC 30 8B 41 20"@,
            ],
        ),
        (
            "GetPipeClient"@,
            seq![
                "85 D2 74 ?? 44 0F B7 CA 44 3B 49 60"@,
            ],
        ),
        (
            "IPCProcessMessage"@,
            seq![
                "48 89 5C 24 18 48 89 6C 24 20 57 41 54 41 55 41 56 41 57 48 83 EC 30"@,
                "48 89 5C 24 18 48 89 6C 24 20 56 41 54 41 55"@,
            ],
        ),
        (
            "KeyValues_FindOrCreateKey"@,
            seq![
                "48 8B C4 57 48 81 EC 50 04 00 00"@,
                "48 8B C4 4C 89 48 20 57 48 81 EC 60 04 00 00"@,
            ],
        ),
        (
            "KeyValues_ReadAsBinary"@,
            seq![
                "48 8B C4 44 88 48 20 55 48 8D 68 A9"@,
                "48 8B C4 44 88 48 20 44 89 40 18"@,
            ],
        ),
        (
            "LoadDepotDecryptionKey"@,
            seq![
                "40 53 55 56 57 48 83 EC 38 48 63 FA 49 8B E9"@,
                "48 89 5C 24 08 48 89 6C 24 10 48 89 74 24 18 57 48 83 EC 30 48 63 FA 49 8B E9"@,
            ],
        ),
        (
            "LoadPackage"@,
            seq![
                "44 89 44 24 18 53 55 56 57 41 55"@,
                "48 89 5C 24 18 48 89 6C 24 20 56 57 41 54 41 55 41 57 48 81 EC 20 01 00 00"@,
            ],
        ),
        (
            "MarkLicenseAsChanged"@,
            seq![
                "48 89 5C 24 20 89 54 24 10 55 56 57 48 83 EC 20"@,
                "89 54 24 10 53 55 56 57 41 56 48 83 EC 20"@,
            ],
        ),
        (
            "OptedInMask"@,
            seq![
                "89 54 24 10 55 53 56 57 41 54 41 55 48 8D AC 24 38 FF FF FF"@,
                "89 54 24 10 55 53 56 41 55 41 56 41 57"@,
            ],
        ),
        (
            "PchMsgNameFromEMsg"@,
            seq![
                "48 89 5C 24 08 57 48 83 EC 20 8B D9 E8 ?? ?? ?? ??"@,
            ],
        ),
        (
            "ProcessPendingLicenseUpdates"@,
            seq![
                "41 56 41 57 48 83 EC 38 83 B9 98 24 00 00 00"@,
                "4C 8B DC 49 89 4B 08 41 55 41 57 48 83 EC 48"@,
            ],
        ),
        (
            "RecvPkt"@,
            seq![
                "48 8B C4 55 48 8D A8 98 F6 FF FF"@,
            ],
        ),
        (
            "SendCallbackToPipe"@,
            seq![
                "48 89 5C 24 08 57 48 83 EC 30 41 8B D9 41 8B F8"@,
            ],
        ),
        (
            "SpawnProcess"@,
            seq![
                "48 89 5C 24 18 4C 89 4C 24 20 48 89 54 24 10 55 56 57 41 54 41 55 41 56 41 57 48 8D AC 24 30 FF FF FF"@,
                "48 89 5C 24 18 4C 89 4C 24 20 48 89 54 24 10 55 56 57 41 54 41 55 41 56 41 57 48 8D AC 24 20 FF FF FF"@,
            ],
        ),
    ]
}

/// The definitions for `steamclient64.dll`.
pub fn get_steamclient_defs() -> (defs: Vec<SignatureDefinition>)
    ensures
        table_of(defs@) == steamclient_table(),
        defs@.len() == 26,
        defs@[0].name@ == "BBuildAndAsyncSendFrame"@,
        defs@[0].sigs@.len() == 2,
        defs@[0].sigs@[0]@ == "48 8B C4 55 48 8D 68 A1 48 81 EC C0 00 00 00 48 89 70 18"@,
        defs@[0].sigs@[1]@ == "48 8B C4 55 48 8D 68 A1 48 81 EC C0 00 00 00"@,
        defs@[1].name@ == "BuildDepotDependency"@,
        defs@[1].sigs@.len() == 1,
        defs@[1].sigs@[0]@ == "48 8B C4 4C 89 48 20 89 50 10 48 89 48 08 55 57"@,
        defs@[2].name@ == "BuildSpawnEnvBlock"@,
        defs@[2].sigs@.len() == 2,
        defs@[2].sigs@[0]@ == "4C 89 4C 24 20 4C 89 44 24 18 48 89 54 24 10 48 89 4C 24 08 55 53 56 57 41 54 41 55 41 56 41 57 48 8D AC 24 B8 FD FF FF"@,
        defs@[2].sigs@[1]@ == "48 89 5C 24 20 4C 89 44 24 18 48 89 54 24 10 48 89 4C 24 08 55 56 57 41 54 41 55 41 56 41 57 48 8D AC 24 B0 FD FF FF"@,
        defs@[3].name@ == "CUtlBufferEnsureCapacity"@,
        defs@[3].sigs@.len() == 2,
        defs@[3].sigs@[0]@ == "48 89 5C 24 08 57 48 83 EC 30 48 8B D9 8D 7A 01"@,
        defs@[3].sigs@[1]@ == "48 89 5C 24 08 57 48 83 EC 30 0F B6 41 1F"@,
        defs@[4].name@ == "CUtlMemoryGrow"@,
        defs@[4].sigs@.len() == 2,
        defs@[4].sigs@[0]@ == "48 89 5C 24 10 57 48 83 EC 30 8B FA 48 8B D9 8B 51 08 8B 49 10 8D 04 39"@,
        defs@[4].sigs@[1]@ == "48 89 5C 24 08 48 89 74 24 10 57 48 83 EC 30 8B 71 10 48 8B D9 8B 49 08"@,
        defs@[5].name@ == "CheckAppOwnership"@,
        defs@[5].sigs@.len() == 2,
        defs@[5].sigs@[0]@ == "48 8B C4 89 50 10 48 89 48 08 55 53"@,
        defs@[5].sigs@[1]@ == "48 8B C4 89 50 10 55 53 48 8D 68 D8"@,
        defs@[6].name@ == "CloseAppCloud"@,
        defs@[6].sigs@.len() == 2,
        defs@[6].sigs@[0]@ == "48 89 5C 24 10 57 48 83 EC 30 8B FA 48 8B D9 85 D2"@,
        defs@[6].sigs@[1]@ == "48 89 5C 24 18 57 48 83 EC 30 8B FA"@,
        defs@[7].name@ == "ConfigStoreGetBinary"@,
        defs@[7].sigs@.len() == 2,
        defs@[7].sigs@[0]@ == "40 53 55 56 57 48 83 EC 38 48 63 FA 49 8B E9"@,
        defs@[7].sigs@[1]@ == "48 89 5C 24 08 48 89 6C 24 10 48 89 74 24 18 57 48 83 EC 30 48 63 FA 49 8B E9"@,
        defs@[8].name@ == "GetAppDataFromAppInfo"@,
        defs@[8].sigs@.len() == 2,
        defs@[8].sigs@[0]@ == "40 53 55 56 57 41 56 41 57 48 81 EC 78 01 00 00"@,
        defs@[8].sigs@[1]@ == "48 89 5C 24 08 48 89 6C 24 10 48 89 74 24 18 57 41 56 41 57 48 81 EC 70 01 00 00"@,
        defs@[9].name@ == "GetAppIDForCurrentPipe"@,
        defs@[9].sigs@.len() == 2,
        defs@[9].sigs@[0]@ == "8B 81 30 0D 00 00 83 F8 FF 74 ??"@,
        defs@[9].sigs@[1]@ == "48 83 EC 08 8B 81 30 0D 00 00"@,
        defs@[10].name@ == "GetDecryptionKey"@,
        defs@[10].sigs@.len() == 1,
        defs@[10].sigs@[0]@ == "40 53 55 56 57 48 81 EC 48 01 00 00 8B FA"@,
        defs@[11].name@ == "GetOrAddAppData"@,
        defs@[11].sigs@.len() == 2,
        defs@[11].sigs@[0]@ == "48 83 EC 58 48 8B 05 ?? ?? ?? ?? 48 89 5C 24 68 48 89 6C 24 70"@,
        defs@[11].sigs@[1]@ == "48 83 EC 68 48 8B 05 ?? ?? ?? ?? 48 89 5C 24 78 48 89 6C 24 60"@,
        defs@[12].name@ == "GetPackageInfo"@,
        defs@[12].sigs@.len() == 2,
        defs@[12].sigs@[0]@ == "48 89 5C 24 18 89 54 24 10 55 56 57 48 83 EC 20 44 8B 49 20"@,
        defs@[12].sigs@[1]@ == "48 89 6C 24 20 41 56 48 83 EC 30 8B 41 20"@,
        defs@[13].name@ == "GetPipeClient"@,
        defs@[13].sigs@.len() == 1,
        defs@[13].sigs@[0]@ == "85 D2 74 ?? 44 0F B7 CA 44 3B 49 60"@,
        defs@[14].name@ == "IPCProcessMessage"@,
        defs@[14].sigs@.len() == 2,
        defs@[14].sigs@[0]@ == "48 89 5C 24 18 48 89 6C 24 20 57 41 54 41 55 41 56 41 57 48 83 EC 30"@,
        defs@[14].sigs@[1]@ == "48 89 5C 24 18 48 89 6C 24 20 56 41 54 41 55"@,
        defs@[15].name@ == "KeyValues_FindOrCreateKey"@,
        defs@[15].sigs@.len() == 2,
        defs@[15].sigs@[0]@ == "48 8B C4 57 48 81 EC 50 04 00 00"@,
        defs@[15].sigs@[1]@ == "48 8B C4 4C 89 48 20 57 48 81 EC 60 04 00 00"@,
        defs@[16].name@ == "KeyValues_ReadAsBinary"@,
        defs@[16].sigs@.len() == 2,
        defs@[16].sigs@[0]@ == "48 8B C4 44 88 48 20 55 48 8D 68 A9"@,
        defs@[16].sigs@[1]@ == "48 8B C4 44 88 48 20 44 89 40 18"@,
        defs@[17].name@ == "LoadDepotDecryptionKey"@,
        defs@[17].sigs@.len() == 2,
        defs@[17].sigs@[0]@ == "40 53 55 56 57 48 83 EC 38 48 63 FA 49 8B E9"@,
        defs@[17].sigs@[1]@ == "48 89 5C 24 08 48 89 6C 24 10 48 89 74 24 18 57 48 83 EC 30 48 63 FA 49 8B E9"@,
        defs@[18].name@ == "LoadPackage"@,
        defs@[18].sigs@.len() == 2,
        defs@[18].sigs@[0]@ == "44 89 44 24 18 53 55 56 57 41 55"@,
        defs@[18].sigs@[1]@ == "48 89 5C 24 18 48 89 6C 24 20 56 57 41 54 41 55 41 57 48 81 EC 20 01 00 00"@,
        defs@[19].name@ == "MarkLicenseAsChanged"@,
        defs@[19].sigs@.len() == 2,
        defs@[19].sigs@[0]@ == "48 89 5C 24 20 89 54 24 10 55 56 57 48 83 EC 20"@,
        defs@[19].sigs@[1]@ == "89 54 24 10 53 55 56 57 41 56 48 83 EC 20"@,
        defs@[20].name@ == "OptedInMask"@,
        defs@[20].sigs@.len() == 2,
        defs@[20].sigs@[0]@ == "89 54 24 10 55 53 56 57 41 54 41 55 48 8D AC 24 38 FF FF FF"@,
        defs@[20].sigs@[1]@ == "89 54 24 10 55 53 56 41 55 41 56 41 57"@,
        defs@[21].name@ == "PchMsgNameFromEMsg"@,
        defs@[21].sigs@.len() == 1,
        defs@[21].sigs@[0]@ == "48 89 5C 24 08 57 48 83 EC 20 8B D9 E8 ?? ?? ?? ??"@,
        defs@[22].name@ == "ProcessPendingLicenseUpdates"@,
        defs@[22].sigs@.len() == 2,
        defs@[22].sigs@[0]@ == "41 56 41 57 48 83 EC 38 83 B9 98 24 00 00 00"@,
        defs@[22].sigs@[1]@ == "4C 8B DC 49 89 4B 08 41 55 41 57 48 83 EC 48"@,
        defs@[23].name@ == "RecvPkt"@,
        defs@[23].sigs@.len() == 1,
        defs@[23].sigs@[0]@ == "48 8B C4 55 48 8D A8 98 F6 FF FF"@,
        defs@[24].name@ == "SendCallbackToPipe"@,
        defs@[24].sigs@.len() == 1,
        defs@[24].sigs@[0]@ == "48 89 5C 24 08 57 48 83 EC 30 41 8B D9 41 8B F8"@,
        defs@[25].name@ == "SpawnProcess"@,
        defs@[25].sigs@.len() == 2,
        defs@[25].sigs@[0]@ == "48 89 5C 24 18 4C 89 4C 24 20 48 89 54 24 10 55 56 57 41 54 41 55 41 56 41 57 48 8D AC 24 30 FF FF FF"@,
        defs@[25].sigs@[1]@ == "48 89 5C 24 18 4C 89 4C 24 20 48 89 54 24 10 55 56 57 41 54 41 55 41 56 41 57 48 8D AC 24 20 FF FF FF"@,
{
    let mut defs: Vec<SignatureDefinition> = Vec::new();
    defs.push(
        two_sigs(
            "BBuildAndAsyncSendFrame",
            "48 8B C4 55 48 8D 68 A1 48 81 EC C0 00 00 00 48 89 70 18",
            "48 8B C4 55 48 8D 68 A1 48 81 EC C0 00 00 00",
        ),
    );
    defs.push(
        one_sig(
            "BuildDepotDependency",
            "48 8B C4 4C 89 48 20 89 50 10 48 89 48 08 55 57",
        ),
    );
    defs.push(
        two_sigs(
            "BuildSpawnEnvBlock",
            "4C 89 4C 24 20 4C 89 44 24 18 48 89 54 24 10 48 89 4C 24 08 55 53 56 57 41 54 41 55 41 56 41 57 48 8D AC 24 B8 FD FF FF",
            "48 89 5C 24 20 4C 89 44 24 18 48 89 54 24 10 48 89 4C 24 08 55 56 57 41 54 41 55 41 56 41 57 48 8D AC 24 B0 FD FF FF",
        ),
    );
    defs.push(
        two_sigs(
            "CUtlBufferEnsureCapacity",
            "48 89 5C 24 08 57 48 83 EC 30 48 8B D9 8D 7A 01",
            "48 89 5C 24 08 57 48 83 EC 30 0F B6 41 1F",
        ),
    );
    defs.push(
        two_sigs(
            "CUtlMemoryGrow",
            "48 89 5C 24 10 57 48 83 EC 30 8B FA 48 8B D9 8B 51 08 8B 49 10 8D 04 39",
            "48 89 5C 24 08 48 89 74 24 10 57 48 83 EC 30 8B 71 10 48 8B D9 8B 49 08",
        ),
    );
    defs.push(
        two_sigs(
            "CheckAppOwnership",
            "48 8B C4 89 50 10 48 89 48 08 55 53",
            "48 8B C4 89 50 10 55 53 48 8D 68 D8",
        ),
    );
    defs.push(
        two_sigs(
            "CloseAppCloud",
            "48 89 5C 24 10 57 48 83 EC 30 8B FA 48 8B D9 85 D2",
            "48 89 5C 24 18 57 48 83 EC 30 8B FA",
        ),
    );
    defs.push(
        two_sigs(
            "ConfigStoreGetBinary",
            "40 53 55 56 57 48 83 EC 38 48 63 FA 49 8B E9",
            "48 89 5C 24 08 48 89 6C 24 10 48 89 74 24 18 57 48 83 EC 30 48 63 FA 49 8B E9",
        ),
    );
    defs.push(
        two_sigs(
            "GetAppDataFromAppInfo",
            "40 53 55 56 57 41 56 41 57 48 81 EC 78 01 00 00",
            "48 89 5C 24 08 48 89 6C 24 10 48 89 74 24 18 57 41 56 41 57 48 81 EC 70 01 00 00",
        ),
    );
    defs.push(
        two_sigs(
            "GetAppIDForCurrentPipe",
            "8B 81 30 0D 00 00 83 F8 FF 74 ??",
            "48 83 EC 08 8B 81 30 0D 00 00",
        ),
    );
    defs.push(
        one_sig(
            "GetDecryptionKey",
            "40 53 55 56 57 48 81 EC 48 01 00 00 8B FA",
        ),
    );
    defs.push(
        two_sigs(
            "GetOrAddAppData",
            "48 83 EC 58 48 8B 05 ?? ?? ?? ?? 48 89 5C 24 68 48 89 6C 24 70",
            "48 83 EC 68 48 8B 05 ?? ?? ?? ?? 48 89 5C 24 78 48 89 6C 24 60",
        ),
    );
    defs.push(
        two_sigs(
            "GetPackageInfo",
            "48 89 5C 24 18 89 54 24 10 55 56 57 48 83 EC 20 44 8B 49 20",
            "48 89 6C 24 20 41 56 48 83 EC 30 8B 41 20",
        ),
    );
    defs.push(
        one_sig(
            "GetPipeClient",
            "85 D2 74 ?? 44 0F B7 CA 44 3B 49 60",
        ),
    );
    defs.push(
        two_sigs(
            "IPCProcessMessage",
            "48 89 5C 24 18 48 89 6C 24 20 57 41 54 41 55 41 56 41 57 48 83 EC 30",
            "48 89 5C 24 18 48 89 6C 24 20 56 41 54 41 55",
        ),
    );
    defs.push(
        two_sigs(
            "KeyValues_FindOrCreateKey",
            "48 8B C4 57 48 81 EC 50 04 00 00",
            "48 8B C4 4C 89 48 20 57 48 81 EC 60 04 00 00",
        ),
    );
    defs.push(
        two_sigs(
            "KeyValues_ReadAsBinary",
            "48 8B C4 44 88 48 20 55 48 8D 68 A9",
            "48 8B C4 44 88 48 20 44 89 40 18",
        ),
    );
    defs.push(
        two_sigs(
            "LoadDepotDecryptionKey",
            "40 53 55 56 57 48 83 EC 38 48 63 FA 49 8B E9",
            "48 89 5C 24 08 48 89 6C 24 10 48 89 74 24 18 57 48 83 EC 30 48 63 FA 49 8B E9",
        ),
    );
    defs.push(
        two_sigs(
            "LoadPackage",
            "44 89 44 24 18 53 55 56 57 41 55",
            "48 89 5C 24 18 48 89 6C 24 20 56 57 41 54 41 55 41 57 48 81 EC 20 01 00 00",
        ),
    );
    defs.push(
        two_sigs(
            "MarkLicenseAsChanged",
            "48 89 5C 24 20 89 54 24 10 55 56 57 48 83 EC 20",
            "89 54 24 10 53 55 56 57 41 56 48 83 EC 20",
        ),
    );
    defs.push(
        two_sigs(
            "OptedInMask",
            "89 54 24 10 55 53 56 57 41 54 41 55 48 8D AC 24 38 FF FF FF",
            "89 54 24 10 55 53 56 41 55 41 56 41 57",
        ),
    );
    defs.push(
        one_sig(
            "PchMsgNameFromEMsg",
            "48 89 5C 24 08 57 48 83 EC 20 8B D9 E8 ?? ?? ?? ??",
        ),
    );
    defs.push(
        two_sigs(
            "ProcessPendingLicenseUpdates",
            "41 56 41 57 48 83 EC 38 83 B9 98 24 00 00 00",
            "4C 8B DC 49 89 4B 08 41 55 41 57 48 83 EC 48",
        ),
    );
    defs.push(
        one_sig(
            "RecvPkt",
            "48 8B C4 55 48 8D A8 98 F6 FF FF",
        ),
    );
    defs.push(
        one_sig(
            "SendCallbackToPipe",
            "48 89 5C 24 08 57 48 83 EC 30 41 8B D9 41 8B F8",
        ),
    );
    defs.push(
        two_sigs(
            "SpawnProcess",
            "48 89 5C 24 18 4C 89 4C 24 20 48 89 54 24 10 55 56 57 41 54 41 55 41 56 41 57 48 8D AC 24 30 FF FF FF",
            "48 89 5C 24 18 4C 89 4C 24 20 48 89 54 24 10 55 56 57 41 54 41 55 41 56 41 57 48 8D AC 24 20 FF FF FF",
        ),
    );
    assert(table_of(defs@) =~= steamclient_table());
    defs
}

/// The functions of `steamui.dll` and their signatures.
///
/// `GetTopManager` is not among them: it is a stub of two instructions, whose signature
/// is too generic for a scan.
pub open spec fn steamui_table() -> Seq<(Seq<char>, Seq<Seq<char>>)> {
    seq![
        (
            "AddProtobufAsBinary"@,
            seq![
                "40 53 55 56 57 48 83 EC 28 48 8B 05 ?? ?? ?? ?? 48 8B F2"@,
                "48 89 5C 24 10 48 89 6C 24 18 48 89 74 24 20 57 48 83 EC 20"@,
            ],
        ),
        (
            "BuildCompleteAppOverviewChange"@,
            seq![
                "4C 89 44 24 18 48 89 54 24 10 48 89 4C 24 08 55 53 56 57 41 54 41 55 41 56 41 57 48 8D 6C 24 E1"@,
                "4C 89 44 24 18 48 89 54 24 10 55 53 56 57 41 54 41 55 41 56 41 57 48 8D 6C 24 E1"@,
            ],
        ),
        (
            "CSteamUIAppControllerRunFrame"@,
            seq![
                "48 89 5C 24 10 48 89 6C 24 18 56 57 41 54 41 56 41 57 48 83 EC 40 0F 29 74 24 30"@,
                "48 89 5C 24 18 48 89 6C 24 20 56 57 41 54 41 55 41 57 48 83 EC 40"@,
            ],
        ),
        (
            "FillInAppOverview"@,
            seq![
                "48 89 54 24 10 48 89 4C 24 08 55 53 56 57 41 54 41 55 41 56 41 57 48 8D 6C 24 E1 48 81 EC B8 00 00 00"@,
                "48 89 54 24 10 48 89 4C 24 08 55 53 56 57 41 54 41 55 41 56 41 57 48 8D 6C 24 E1"@,
            ],
        ),
        (
            "GetAppByID"@,
            seq![
                "89 54 24 10 53 48 83 EC 40 48 8B 05 ?? ?? ?? ??"@,
                "89 54 24 10 56 48 83 EC 40 48 8B 05 ?? ?? ?? ??"@,
            ],
        ),
        (
            "LoadModuleWithPath"@,
            seq![
                "48 89 5C 24 18 55 56 41 57 48 83 EC 40"@,
                "48 89 5C 24 18 48 89 6C 24 20 56 41 54 41 57 48 83 EC 40"@,
            ],
        ),
        (
            "MarkAppChange"@,
            seq![
                "48 83 EC 78 48 8B 05 ?? ?? ?? ?? 48 89 74 24 70"@,
                "48 83 EC 78 48 8B 05 ?? ?? ?? ?? 48 89 7C 24 68"@,
            ],
        ),
        (
            "RepeatedFieldUint32_Add"@,
            seq![
                "48 89 74 24 10 48 89 7C 24 18 41 56 48 83 EC 20 8B 31 48 8B F9 8B 49 04"@,
            ],
        ),
        (
            "ShouldShowAppInLibrary"@,
            seq![
                "40 53 48 83 EC 20 48 8B 01 48 8B D9 FF 10 3D D6 0C 09 00"@,
            ],
        ),
    ]
}

/// The definitions for `steamui.dll`.
pub fn get_steamui_defs() -> (defs: Vec<SignatureDefinition>)
    ensures
        table_of(defs@) == steamui_table(),
        defs@.len() == 9,
        defs@[0].name@ == "AddProtobufAsBinary"@,
        defs@[0].sigs@.len() == 2,
        defs@[0].sigs@[0]@ == "40 53 55 56 57 48 83 EC 28 48 8B 05 ?? ?? ?? ?? 48 8B F2"@,
        defs@[0].sigs@[1]@ == "48 89 5C 24 10 48 89 6C 24 18 48 89 74 24 20 57 48 83 EC 20"@,
        defs@[1].name@ == "BuildCompleteAppOverviewChange"@,
        defs@[1].sigs@.len() == 2,
        defs@[1].sigs@[0]@ == "4C 89 44 24 18 48 89 54 24 10 48 89 4C 24 08 55 53 56 57 41 54 41 55 41 56 41 57 48 8D 6C 24 E1"@,
        defs@[1].sigs@[1]@ == "4C 89 44 24 18 48 89 54 24 10 55 53 56 57 41 54 41 55 41 56 41 57 48 8D 6C 24 E1"@,
        defs@[2].name@ == "CSteamUIAppControllerRunFrame"@,
        defs@[2].sigs@.len() == 2,
        defs@[2].sigs@[0]@ == "48 89 5C 24 10 48 89 6C 24 18 56 57 41 54 41 56 41 57 48 83 EC 40 0F 29 74 24 30"@,
        defs@[2].sigs@[1]@ == "48 89 5C 24 18 48 89 6C 24 20 56 57 41 54 41 55 41 57 48 83 EC 40"@,
        defs@[3].name@ == "FillInAppOverview"@,
        defs@[3].sigs@.len() == 2,
        defs@[3].sigs@[0]@ == "48 89 54 24 10 48 89 4C 24 08 55 53 56 57 41 54 41 55 41 56 41 57 48 8D 6C 24 E1 48 81 EC B8 00 00 00"@,
        defs@[3].sigs@[1]@ == "48 89 54 24 10 48 89 4C 24 08 55 53 56 57 41 54 41 55 41 56 41 57 48 8D 6C 24 E1"@,
        defs@[4].name@ == "GetAppByID"@,
        defs@[4].sigs@.len() == 2,
        defs@[4].sigs@[0]@ == "89 54 24 10 53 48 83 EC 40 48 8B 05 ?? ?? ?? ??"@,
        defs@[4].sigs@[1]@ == "89 54 24 10 56 48 83 EC 40 48 8B 05 ?? ?? ?? ??"@,
        defs@[5].name@ == "LoadModuleWithPath"@,
        defs@[5].sigs@.len() == 2,
        defs@[5].sigs@[0]@ == "48 89 5C 24 18 55 56 41 57 48 83 EC 40"@,
        defs@[5].sigs@[1]@ == "48 89 5C 24 18 48 89 6C 24 20 56 41 54 41 57 48 83 EC 40"@,
        defs@[6].name@ == "MarkAppChange"@,
        defs@[6].sigs@.len() == 2,
        defs@[6].sigs@[0]@ == "48 83 EC 78 48 8B 05 ?? ?? ?? ?? 48 89 74 24 70"@,
        defs@[6].sigs@[1]@ == "48 83 EC 78 48 8B 05 ?? ?? ?? ?? 48 89 7C 24 68"@,
        defs@[7].name@ == "RepeatedFieldUint32_Add"@,
        defs@[7].sigs@.len() == 1,
        defs@[7].sigs@[0]@ == "48 89 74 24 10 48 89 7C 24 18 41 56 48 83 EC 20 8B 31 48 8B F9 8B 49 04"@,
        defs@[8].name@ == "ShouldShowAppInLibrary"@,
        defs@[8].sigs@.len() == 1,
        defs@[8].sigs@[0]@ == "40 53 48 83 EC 20 48 8B 01 48 8B D9 FF 10 3D D6 0C 09 00"@,
{
    let mut defs: Vec<SignatureDefinition> = Vec::new();
    defs.push(
        two_sigs(
            "AddProtobufAsBinary",
            "40 53 55 56 57 48 83 EC 28 48 8B 05 ?? ?? ?? ?? 48 8B F2",
            "48 89 5C 24 10 48 89 6C 24 18 48 89 74 24 20 57 48 83 EC 20",
        ),
    );
    defs.push(
        two_sigs(
            "BuildCompleteAppOverviewChange",
            "4C 89 44 24 18 48 89 54 24 10 48 89 4C 24 08 55 53 56 57 41 54 41 55 41 56 41 57 48 8D 6C 24 E1",
            "4C 89 44 24 18 48 89 54 24 10 55 53 56 57 41 54 41 55 41 56 41 57 48 8D 6C 24 E1",
        ),
    );
    defs.push(
        two_sigs(
            "CSteamUIAppControllerRunFrame",
            "48 89 5C 24 10 48 89 6C 24 18 56 57 41 54 41 56 41 57 48 83 EC 40 0F 29 74 24 30",
            "48 89 5C 24 18 48 89 6C 24 20 56 57 41 54 41 55 41 57 48 83 EC 40",
        ),
    );
    defs.push(
        two_sigs(
            "FillInAppOverview",
            "48 89 54 24 10 48 89 4C 24 08 55 53 56 57 41 54 41 55 41 56 41 57 48 8D 6C 24 E1 48 81 EC B8 00 00 00",
            "48 89 54 24 10 48 89 4C 24 08 55 53 56 57 41 54 41 55 41 56 41 57 48 8D 6C 24 E1",
        ),
    );
    defs.push(
        two_sigs(
            "GetAppByID",
            "89 54 24 10 53 48 83 EC 40 48 8B 05 ?? ?? ?? ??",
            "89 54 24 10 56 48 83 EC 40 48 8B 05 ?? ?? ?? ??",
        ),
    );
    defs.push(
        two_sigs(
            "LoadModuleWithPath",
            "48 89 5C 24 18 55 56 41 57 48 83 EC 40",
            "48 89 5C 24 18 48 89 6C 24 20 56 41 54 41 57 48 83 EC 40",
        ),
    );
    defs.push(
        two_sigs(
            "MarkAppChange",
            "48 83 EC 78 48 8B 05 ?? ?? ?? ?? 48 89 74 24 70",
            "48 83 EC 78 48 8B 05 ?? ?? ?? ?? 48 89 7C 24 68",
        ),
    );
    defs.push(
        one_sig(
            "RepeatedFieldUint32_Add",
            "48 89 74 24 10 48 89 7C 24 18 41 56 48 83 EC 20 8B 31 48 8B F9 8B 49 04",
        ),
    );
    defs.push(
        one_sig(
            "ShouldShowAppInLibrary",
            "40 53 48 83 EC 20 48 8B 01 48 8B D9 FF 10 3D D6 0C 09 00",
        ),
    );
    assert(table_of(defs@) =~= steamui_table());
    defs
}

// ---------------------------------------------------------------------------
// Laws
// ---------------------------------------------------------------------------

/// The functions of both libraries.
pub open spec fn all_functions() -> Seq<(Seq<char>, Seq<Seq<char>>)> {
    steamclient_table() + steamui_table()
}

/// The signature can be looked for: reading it skips no token, and its pattern begins
/// with a byte.
pub open spec fn usable(sig: Seq<char>) -> bool {
    &&& sig_pattern(sig).len() == tokens(sig).len()
    &&& sig_pattern(sig).len() > 0
    &&& sig_pattern(sig)[0] is Some
}

/// From the given position on the text is made of tokens of two characters with single
/// spaces between them: question marks or hexadecimal digits.
spec fn spelled_from(sig: Seq<char>, at: int) -> bool
    decreases sig.len() - at,
{
    &&& 0 <= at
    &&& at + 2 <= sig.len()
    &&& ((sig[at] == '?' && sig[at + 1] == '?') || (hex_digit_value(sig[at]) is Some
        && hex_digit_value(sig[at + 1]) is Some))
    &&& (at + 2 == sig.len() || (at + 2 < sig.len() && sig[at + 2] == ' ' && spelled_from(
        sig,
        at + 3,
    )))
}

/// The text is made of such tokens, the first of them a byte.
#[verifier::opaque]
spec fn spelled(sig: Seq<char>) -> bool {
    spelled_from(sig, 0) && sig[0] != '?'
}

/// The function has a signature, and its signatures are made of such tokens.
spec fn entry_spelled(entry: (Seq<char>, Seq<Seq<char>>)) -> bool {
    &&& entry.1.len() > 0
    &&& forall|s: int| 0 <= s < entry.1.len() ==> spelled(#[trigger] entry.1[s])
}

proof fn lemma_spelled_from(sig: Seq<char>, at: int)
    requires
        spelled_from(sig, at),
    ensures
        sig_pattern(sig.skip(at)).len() == tokens(sig.skip(at)).len() > 0,
        sig_pattern(sig.skip(at))[0] is Some <==> sig[at] != '?',
    decreases sig.len() - at,
{
    let rest = sig.skip(at);
    let token = sig.subrange(at, at + 2);
    let entry = if sig[at] == '?' {
        None
    } else {
        Some((hex_digit_value(sig[at])->0 * 16 + hex_digit_value(sig[at + 1])->0) as u8)
    };
    assert(spells(token, entry)) by {
        if sig[at] == '?' {
            assert(token =~= seq!['?', '?']);
        }
    }
    lemma_spelled_entry(token, entry);
    if at + 2 == sig.len() {
        assert(rest =~= token);
    } else {
        let tail = sig.skip(at + 3);
        assert(rest =~= token + seq![' '] + tail);
        lemma_spelled_from(sig, at + 3);
        lemma_tokens_concat(token, ' ', tail);
        law_signatures_concatenate(token, ' ', tail);
    }
}

/// The functions from number 0 on have signatures of that form.
proof fn lemma_functions_from_0()
    ensures
        forall|d: int| 0 <= d < 3 ==> entry_spelled(#[trigger] all_functions()[d]),
{
    assert(spelled("48 8B C4 55 48 8D 68 A1 48 81 EC C0 00 00 00 48 89 70 18"@)) by {
        reveal_strlit("48 8B C4 55 48 8D 68 A1 48 81 EC C0 00 00 00 48 89 70 18");
        reveal(spelled);
        reveal_with_fuel(spelled_from, 20);
    }
    assert(spelled("48 8B C4 55 48 8D 68 A1 48 81 EC C0 00 00 00"@)) by {
        reveal_strlit("48 8B C4 55 48 8D 68 A1 48 81 EC C0 00 00 00");
        reveal(spelled);
        reveal_with_fuel(spelled_from, 16);
    }
    assert(spelled("48 8B C4 4C 89 48 20 89 50 10 48 89 48 08 55 57"@)) by {
        reveal_strlit("48 8B C4 4C 89 48 20 89 50 10 48 89 48 08 55 57");
        reveal(spelled);
        reveal_with_fuel(spelled_from, 17);
    }
    assert(spelled("4C 89 4C 24 20 4C 89 44 24 18 48 89 54 24 10 48 89 4C 24 08 55 53 56 57 41 54 41 55 41 56 41 57 48 8D AC 24 B8 FD FF FF"@)) by {
        reveal_strlit("4C 89 4C 24 20 4C 89 44 24 18 48 89 54 24 10 48 89 4C 24 08 55 53 56 57 41 54 41 55 41 56 41 57 48 8D AC 24 B8 FD FF FF");
        reveal(spelled);
        reveal_with_fuel(spelled_from, 41);
    }
    assert(spelled("48 89 5C 24 20 4C 89 44 24 18 48 89 54 24 10 48 89 4C 24 08 55 56 57 41 54 41 55 41 56 41 57 48 8D AC 24 B0 FD FF FF"@)) by {
        reveal_strlit("48 89 5C 24 20 4C 89 44 24 18 48 89 54 24 10 48 89 4C 24 08 55 56 57 41 54 41 55 41 56 41 57 48 8D AC 24 B0 FD FF FF");
        reveal(spelled);
        reveal_with_fuel(spelled_from, 40);
    }
}

/// The functions from number 3 on have signatures of that form.
proof fn lemma_functions_from_3()
    ensures
        forall|d: int| 3 <= d < 6 ==> entry_spelled(#[trigger] all_functions()[d]),
{
    assert(spelled("48 89 5C 24 08 57 48 83 EC 30 48 8B D9 8D 7A 01"@)) by {
        reveal_strlit("48 89 5C 24 08 57 48 83 EC 30 48 8B D9 8D 7A 01");
        reveal(spelled);
        reveal_with_fuel(spelled_from, 17);
    }
    assert(spelled("48 89 5C 24 08 57 48 83 EC 30 0F B6 41 1F"@)) by {
        reveal_strlit("48 89 5C 24 08 57 48 83 EC 30 0F B6 41 1F");
        reveal(spelled);
        reveal_with_fuel(spelled_from, 15);
    }
    assert(spelled("48 89 5C 24 10 57 48 83 EC 30 8B FA 48 8B D9 8B 51 08 8B 49 10 8D 04 39"@)) by {
        reveal_strlit("48 89 5C 24 10 57 48 83 EC 30 8B FA 48 8B D9 8B 51 08 8B 49 10 8D 04 39");
        reveal(spelled);
        reveal_with_fuel(spelled_from, 25);
    }
    assert(spelled("48 89 5C 24 08 48 89 74 24 10 57 48 83 EC 30 8B 71 10 48 8B D9 8B 49 08"@)) by {
        reveal_strlit("48 89 5C 24 08 48 89 74 24 10 57 48 83 EC 30 8B 71 10 48 8B D9 8B 49 08");
        reveal(spelled);
        reveal_with_fuel(spelled_from, 25);
    }
    assert(spelled("48 8B C4 89 50 10 48 89 48 08 55 53"@)) by {
        reveal_strlit("48 8B C4 89 50 10 48 89 48 08 55 53");
        reveal(spelled);
        reveal_with_fuel(spelled_from, 13);
    }
    assert(spelled("48 8B C4 89 50 10 55 53 48 8D 68 D8"@)) by {
        reveal_strlit("48 8B C4 89 50 10 55 53 48 8D 68 D8");
        reveal(spelled);
        reveal_with_fuel(spelled_from, 13);
    }
}

/// The functions from number 6 on have signatures of that form.
proof fn lemma_functions_from_6()
    ensures
        forall|d: int| 6 <= d < 9 ==> entry_spelled(#[trigger] all_functions()[d]),
{
    assert(spelled("48 89 5C 24 10 57 48 83 EC 30 8B FA 48 8B D9 85 D2"@)) by {
        reveal_strlit("48 89 5C 24 10 57 48 83 EC 30 8B FA 48 8B D9 85 D2");
        reveal(spelled);
        reveal_with_fuel(spelled_from, 18);
    }
    assert(spelled("48 89 5C 24 18 57 48 83 EC 30 8B FA"@)) by {
        reveal_strlit("48 89 5C 24 18 57 48 83 EC 30 8B FA");
        reveal(spelled);
        reveal_with_fuel(spelled_from, 13);
    }
    assert(spelled("40 53 55 56 57 48 83 EC 38 48 63 FA 49 8B E9"@)) by {
        reveal_strlit("40 53 55 56 57 48 83 EC 38 48 63 FA 49 8B E9");
        reveal(spelled);
        reveal_with_fuel(spelled_from, 16);
    }
    assert(spelled("48 89 5C 24 08 48 89 6C 24 10 48 89 74 24 18 57 48 83 EC 30 48 63 FA 49 8B E9"@)) by {
        reveal_strlit("48 89 5C 24 08 48 89 6C 24 10 48 89 74 24 18 57 48 83 EC 30 48 63 FA 49 8B E9");
        reveal(spelled);
        reveal_with_fuel(spelled_from, 27);
    }
    assert(spelled("40 53 55 56 57 41 56 41 57 48 81 EC 78 01 00 00"@)) by {
        reveal_strlit("40 53 55 56 57 41 56 41 57 48 81 EC 78 01 00 00");
        reveal(spelled);
        reveal_with_fuel(spelled_from, 17);
    }
    assert(spelled("48 89 5C 24 08 48 89 6C 24 10 48 89 74 24 18 57 41 56 41 57 48 81 EC 70 01 00 00"@)) by {
        reveal_strlit("48 89 5C 24 08 48 89 6C 24 10 48 89 74 24 18 57 41 56 41 57 48 81 EC 70 01 00 00");
        reveal(spelled);
        reveal_with_fuel(spelled_from, 28);
    }
}

/// The functions from number 9 on have signatures of that form.
proof fn lemma_functions_from_9()
    ensures
        forall|d: int| 9 <= d < 12 ==> entry_spelled(#[trigger] all_functions()[d]),
{
    assert(spelled("8B 81 30 0D 00 00 83 F8 FF 74 ??"@)) by {
        reveal_strlit("8B 81 30 0D 00 00 83 F8 FF 74 ??");
        reveal(spelled);
        reveal_with_fuel(spelled_from, 12);
    }
    assert(spelled("48 83 EC 08 8B 81 30 0D 00 00"@)) by {
        reveal_strlit("48 83 EC 08 8B 81 30 0D 00 00");
        reveal(spelled);
        reveal_with_fuel(spelled_from, 11);
    }
    assert(spelled("40 53 55 56 57 48 81 EC 48 01 00 00 8B FA"@)) by {
        reveal_strlit("40 53 55 56 57 48 81 EC 48 01 00 00 8B FA");
        reveal(spelled);
        reveal_with_fuel(spelled_from, 15);
    }
    assert(spelled("48 83 EC 58 48 8B 05 ?? ?? ?? ?? 48 89 5C 24 68 48 89 6C 24 70"@)) by {
        reveal_strlit("48 83 EC 58 48 8B 05 ?? ?? ?? ?? 48 89 5C 24 68 48 89 6C 24 70");
        reveal(spelled);
        reveal_with_fuel(spelled_from, 22);
    }
    assert(spelled("48 83 EC 68 48 8B 05 ?? ?? ?? ?? 48 89 5C 24 78 48 89 6C 24 60"@)) by {
        reveal_strlit("48 83 EC 68 48 8B 05 ?? ?? ?? ?? 48 89 5C 24 78 48 89 6C 24 60");
        reveal(spelled);
        reveal_with_fuel(spelled_from, 22);
    }
}

/// The functions from number 12 on have signatures of that form.
proof fn lemma_functions_from_12()
    ensures
        forall|d: int| 12 <= d < 15 ==> entry_spelled(#[trigger] all_functions()[d]),
{
    assert(spelled("48 89 5C 24 18 89 54 24 10 55 56 57 48 83 EC 20 44 8B 49 20"@)) by {
        reveal_strlit("48 89 5C 24 18 89 54 24 10 55 56 57 48 83 EC 20 44 8B 49 20");
        reveal(spelled);
        reveal_with_fuel(spelled_from, 21);
    }
    assert(spelled("48 89 6C 24 20 41 56 48 83 EC 30 8B 41 20"@)) by {
        reveal_strlit("48 89 6C 24 20 41 56 48 83 EC 30 8B 41 20");
        reveal(spelled);
        reveal_with_fuel(spelled_from, 15);
    }
    assert(spelled("85 D2 74 ?? 44 0F B7 CA 44 3B 49 60"@)) by {
        reveal_strlit("85 D2 74 ?? 44 0F B7 CA 44 3B 49 60");
        reveal(spelled);
        reveal_with_fuel(spelled_from, 13);
    }
    assert(spelled("48 89 5C 24 18 48 89 6C 24 20 57 41 54 41 55 41 56 41 57 48 83 EC 30"@)) by {
        reveal_strlit("48 89 5C 24 18 48 89 6C 24 20 57 41 54 41 55 41 56 41 57 48 83 EC 30");
        reveal(spelled);
        reveal_with_fuel(spelled_from, 24);
    }
    assert(spelled("48 89 5C 24 18 48 89 6C 24 20 56 41 54 41 55"@)) by {
        reveal_strlit("48 89 5C 24 18 48 89 6C 24 20 56 41 54 41 55");
        reveal(spelled);
        reveal_with_fuel(spelled_from, 16);
    }
}

/// The functions from number 15 on have signatures of that form.
proof fn lemma_functions_from_15()
    ensures
        forall|d: int| 15 <= d < 18 ==> entry_spelled(#[trigger] all_functions()[d]),
{
    assert(spelled("48 8B C4 57 48 81 EC 50 04 00 00"@)) by {
        reveal_strlit("48 8B C4 57 48 81 EC 50 04 00 00");
        reveal(spelled);
        reveal_with_fuel(spelled_from, 12);
    }
    assert(spelled("48 8B C4 4C 89 48 20 57 48 81 EC 60 04 00 00"@)) by {
        reveal_strlit("48 8B C4 4C 89 48 20 57 48 81 EC 60 04 00 00");
        reveal(spelled);
        reveal_with_fuel(spelled_from, 16);
    }
    assert(spelled("48 8B C4 44 88 48 20 55 48 8D 68 A9"@)) by {
        reveal_strlit("48 8B C4 44 88 48 20 55 48 8D 68 A9");
        reveal(spelled);
        reveal_with_fuel(spelled_from, 13);
    }
    assert(spelled("48 8B C4 44 88 48 20 44 89 40 18"@)) by {
        reveal_strlit("48 8B C4 44 88 48 20 44 89 40 18");
        reveal(spelled);
        reveal_with_fuel(spelled_from, 12);
    }
    assert(spelled("40 53 55 56 57 48 83 EC 38 48 63 FA 49 8B E9"@)) by {
        reveal_strlit("40 53 55 56 57 48 83 EC 38 48 63 FA 49 8B E9");
        reveal(spelled);
        reveal_with_fuel(spelled_from, 16);
    }
    assert(spelled("48 89 5C 24 08 48 89 6C 24 10 48 89 74 24 18 57 48 83 EC 30 48 63 FA 49 8B E9"@)) by {
        reveal_strlit("48 89 5C 24 08 48 89 6C 24 10 48 89 74 24 18 57 48 83 EC 30 48 63 FA 49 8B E9");
        reveal(spelled);
        reveal_with_fuel(spelled_from, 27);
    }
}

/// The functions from number 18 on have signatures of that form.
proof fn lemma_functions_from_18()
    ensures
        forall|d: int| 18 <= d < 21 ==> entry_spelled(#[trigger] all_functions()[d]),
{
    assert(spelled("44 89 44 24 18 53 55 56 57 41 55"@)) by {
        reveal_strlit("44 89 44 24 18 53 55 56 57 41 55");
        reveal(spelled);
        reveal_with_fuel(spelled_from, 12);
    }
    assert(spelled("48 89 5C 24 18 48 89 6C 24 20 56 57 41 54 41 55 41 57 48 81 EC 20 01 00 00"@)) by {
        reveal_strlit("48 89 5C 24 18 48 89 6C 24 20 56 57 41 54 41 55 41 57 48 81 EC 20 01 00 00");
        reveal(spelled);
        reveal_with_fuel(spelled_from, 26);
    }
    assert(spelled("48 89 5C 24 20 89 54 24 10 55 56 57 48 83 EC 20"@)) by {
        reveal_strlit("48 89 5C 24 20 89 54 24 10 55 56 57 48 83 EC 20");
        reveal(spelled);
        reveal_with_fuel(spelled_from, 17);
    }
    assert(spelled("89 54 24 10 53 55 56 57 41 56 48 83 EC 20"@)) by {
        reveal_strlit("89 54 24 10 53 55 56 57 41 56 48 83 EC 20");
        reveal(spelled);
        reveal_with_fuel(spelled_from, 15);
    }
    assert(spelled("89 54 24 10 55 53 56 57 41 54 41 55 48 8D AC 24 38 FF FF FF"@)) by {
        reveal_strlit("89 54 24 10 55 53 56 57 41 54 41 55 48 8D AC 24 38 FF FF FF");
        reveal(spelled);
        reveal_with_fuel(spelled_from, 21);
    }
    assert(spelled("89 54 24 10 55 53 56 41 55 41 56 41 57"@)) by {
        reveal_strlit("89 54 24 10 55 53 56 41 55 41 56 41 57");
        reveal(spelled);
        reveal_with_fuel(spelled_from, 14);
    }
}

/// The functions from number 21 on have signatures of that form.
proof fn lemma_functions_from_21()
    ensures
        forall|d: int| 21 <= d < 24 ==> entry_spelled(#[trigger] all_functions()[d]),
{
    assert(spelled("48 89 5C 24 08 57 48 83 EC 20 8B D9 E8 ?? ?? ?? ??"@)) by {
        reveal_strlit("48 89 5C 24 08 57 48 83 EC 20 8B D9 E8 ?? ?? ?? ??");
        reveal(spelled);
        reveal_with_fuel(spelled_from, 18);
    }
    assert(spelled("41 56 41 57 48 83 EC 38 83 B9 98 24 00 00 00"@)) by {
        reveal_strlit("41 56 41 57 48 83 EC 38 83 B9 98 24 00 00 00");
        reveal(spelled);
        reveal_with_fuel(spelled_from, 16);
    }
    assert(spelled("4C 8B DC 49 89 4B 08 41 55 41 57 48 83 EC 48"@)) by {
        reveal_strlit("4C 8B DC 49 89 4B 08 41 55 41 57 48 83 EC 48");
        reveal(spelled);
        reveal_with_fuel(spelled_from, 16);
    }
    assert(spelled("48 8B C4 55 48 8D A8 98 F6 FF FF"@)) by {
        reveal_strlit("48 8B C4 55 48 8D A8 98 F6 FF FF");
        reveal(spelled);
        reveal_with_fuel(spelled_from, 12);
    }
}

/// The functions from number 24 on have signatures of that form.
proof fn lemma_functions_from_24()
    ensures
        forall|d: int| 24 <= d < 27 ==> entry_spelled(#[trigger] all_functions()[d]),
{
    assert(spelled("48 89 5C 24 08 57 48 83 EC 30 41 8B D9 41 8B F8"@)) by {
        reveal_strlit("48 89 5C 24 08 57 48 83 EC 30 41 8B D9 41 8B F8");
        reveal(spelled);
        reveal_with_fuel(spelled_from, 17);
    }
    assert(spelled("48 89 5C 24 18 4C 89 4C 24 20 48 89 54 24 10 55 56 57 41 54 41 55 41 56 41 57 48 8D AC 24 30 FF FF FF"@)) by {
        reveal_strlit("48 89 5C 24 18 4C 89 4C 24 20 48 89 54 24 10 55 56 57 41 54 41 55 41 56 41 57 48 8D AC 24 30 FF FF FF");
        reveal(spelled);
        reveal_with_fuel(spelled_from, 35);
    }
    assert(spelled("48 89 5C 24 18 4C 89 4C 24 20 48 89 54 24 10 55 56 57 41 54 41 55 41 56 41 57 48 8D AC 24 20 FF FF FF"@)) by {
        reveal_strlit("48 89 5C 24 18 4C 89 4C 24 20 48 89 54 24 10 55 56 57 41 54 41 55 41 56 41 57 48 8D AC 24 20 FF FF FF");
        reveal(spelled);
        reveal_with_fuel(spelled_from, 35);
    }
    assert(spelled("40 53 55 56 57 48 83 EC 28 48 8B 05 ?? ?? ?? ?? 48 8B F2"@)) by {
        reveal_strlit("40 53 55 56 57 48 83 EC 28 48 8B 05 ?? ?? ?? ?? 48 8B F2");
        reveal(spelled);
        reveal_with_fuel(spelled_from, 20);
    }
    assert(spelled("48 89 5C 24 10 48 89 6C 24 18 48 89 74 24 20 57 48 83 EC 20"@)) by {
        reveal_strlit("48 89 5C 24 10 48 89 6C 24 18 48 89 74 24 20 57 48 83 EC 20");
        reveal(spelled);
        reveal_with_fuel(spelled_from, 21);
    }
}

/// The functions from number 27 on have signatures of that form.
proof fn lemma_functions_from_27()
    ensures
        forall|d: int| 27 <= d < 30 ==> entry_spelled(#[trigger] all_functions()[d]),
{
    assert(spelled("4C 89 44 24 18 48 89 54 24 10 48 89 4C 24 08 55 53 56 57 41 54 41 55 41 56 41 57 48 8D 6C 24 E1"@)) by {
        reveal_strlit("4C 89 44 24 18 48 89 54 24 10 48 89 4C 24 08 55 53 56 57 41 54 41 55 41 56 41 57 48 8D 6C 24 E1");
        reveal(spelled);
        reveal_with_fuel(spelled_from, 33);
    }
    assert(spelled("4C 89 44 24 18 48 89 54 24 10 55 53 56 57 41 54 41 55 41 56 41 57 48 8D 6C 24 E1"@)) by {
        reveal_strlit("4C 89 44 24 18 48 89 54 24 10 55 53 56 57 41 54 41 55 41 56 41 57 48 8D 6C 24 E1");
        reveal(spelled);
        reveal_with_fuel(spelled_from, 28);
    }
    assert(spelled("48 89 5C 24 10 48 89 6C 24 18 56 57 41 54 41 56 41 57 48 83 EC 40 0F 29 74 24 30"@)) by {
        reveal_strlit("48 89 5C 24 10 48 89 6C 24 18 56 57 41 54 41 56 41 57 48 83 EC 40 0F 29 74 24 30");
        reveal(spelled);
        reveal_with_fuel(spelled_from, 28);
    }
    assert(spelled("48 89 5C 24 18 48 89 6C 24 20 56 57 41 54 41 55 41 57 48 83 EC 40"@)) by {
        reveal_strlit("48 89 5C 24 18 48 89 6C 24 20 56 57 41 54 41 55 41 57 48 83 EC 40");
        reveal(spelled);
        reveal_with_fuel(spelled_from, 23);
    }
    assert(spelled("48 89 54 24 10 48 89 4C 24 08 55 53 56 57 41 54 41 55 41 56 41 57 48 8D 6C 24 E1 48 81 EC B8 00 00 00"@)) by {
        reveal_strlit("48 89 54 24 10 48 89 4C 24 08 55 53 56 57 41 54 41 55 41 56 41 57 48 8D 6C 24 E1 48 81 EC B8 00 00 00");
        reveal(spelled);
        reveal_with_fuel(spelled_from, 35);
    }
    assert(spelled("48 89 54 24 10 48 89 4C 24 08 55 53 56 57 41 54 41 55 41 56 41 57 48 8D 6C 24 E1"@)) by {
        reveal_strlit("48 89 54 24 10 48 89 4C 24 08 55 53 56 57 41 54 41 55 41 56 41 57 48 8D 6C 24 E1");
        reveal(spelled);
        reveal_with_fuel(spelled_from, 28);
    }
}

/// The functions from number 30 on have signatures of that form.
proof fn lemma_functions_from_30()
    ensures
        forall|d: int| 30 <= d < 33 ==> entry_spelled(#[trigger] all_functions()[d]),
{
    assert(spelled("89 54 24 10 53 48 83 EC 40 48 8B 05 ?? ?? ?? ??"@)) by {
        reveal_strlit("89 54 24 10 53 48 83 EC 40 48 8B 05 ?? ?? ?? ??");
        reveal(spelled);
        reveal_with_fuel(spelled_from, 17);
    }
    assert(spelled("89 54 24 10 56 48 83 EC 40 48 8B 05 ?? ?? ?? ??"@)) by {
        reveal_strlit("89 54 24 10 56 48 83 EC 40 48 8B 05 ?? ?? ?? ??");
        reveal(spelled);
        reveal_with_fuel(spelled_from, 17);
    }
    assert(spelled("48 89 5C 24 18 55 56 41 57 48 83 EC 40"@)) by {
        reveal_strlit("48 89 5C 24 18 55 56 41 57 48 83 EC 40");
        reveal(spelled);
        reveal_with_fuel(spelled_from, 14);
    }
    assert(spelled("48 89 5C 24 18 48 89 6C 24 20 56 41 54 41 57 48 83 EC 40"@)) by {
        reveal_strlit("48 89 5C 24 18 48 89 6C 24 20 56 41 54 41 57 48 83 EC 40");
        reveal(spelled);
        reveal_with_fuel(spelled_from, 20);
    }
    assert(spelled("48 83 EC 78 48 8B 05 ?? ?? ?? ?? 48 89 74 24 70"@)) by {
        reveal_strlit("48 83 EC 78 48 8B 05 ?? ?? ?? ?? 48 89 74 24 70");
        reveal(spelled);
        reveal_with_fuel(spelled_from, 17);
    }
    assert(spelled("48 83 EC 78 48 8B 05 ?? ?? ?? ?? 48 89 7C 24 68"@)) by {
        reveal_strlit("48 83 EC 78 48 8B 05 ?? ?? ?? ?? 48 89 7C 24 68");
        reveal(spelled);
        reveal_with_fuel(spelled_from, 17);
    }
}

/// The functions from number 33 on have signatures of that form.
proof fn lemma_functions_from_33()
    ensures
        forall|d: int| 33 <= d < 35 ==> entry_spelled(#[trigger] all_functions()[d]),
{
    assert(spelled("48 89 74 24 10 48 89 7C 24 18 41 56 48 83 EC 20 8B 31 48 8B F9 8B 49 04"@)) by {
        reveal_strlit("48 89 74 24 10 48 89 7C 24 18 41 56 48 83 EC 20 8B 31 48 8B F9 8B 49 04");
        reveal(spelled);
        reveal_with_fuel(spelled_from, 25);
    }
    assert(spelled("40 53 48 83 EC 20 48 8B 01 48 8B D9 FF 10 3D D6 0C 09 00"@)) by {
        reveal_strlit("40 53 48 83 EC 20 48 8B 01 48 8B D9 FF 10 3D D6 0C 09 00");
        reveal(spelled);
        reveal_with_fuel(spelled_from, 20);
    }
}

/// Every function has a signature, and every signature can be looked for: reading it skips
/// no token, and its pattern begins with a byte.
pub proof fn law_signatures_are_read_in_full(d: int)
    requires
        0 <= d < all_functions().len(),
    ensures
        all_functions()[d].1.len() > 0,
        forall|s: int|
            0 <= s < all_functions()[d].1.len() ==> usable(#[trigger] all_functions()[d].1[s]),
{
    lemma_functions_from_0();
    lemma_functions_from_3();
    lemma_functions_from_6();
    lemma_functions_from_9();
    lemma_functions_from_12();
    lemma_functions_from_15();
    lemma_functions_from_18();
    lemma_functions_from_21();
    lemma_functions_from_24();
    lemma_functions_from_27();
    lemma_functions_from_30();
    lemma_functions_from_33();
    let sigs = all_functions()[d].1;
    assert(entry_spelled(all_functions()[d]));
    assert forall|s: int| 0 <= s < sigs.len() implies usable(#[trigger] sigs[s]) by {
        assert(spelled(sigs[s]));
        reveal(spelled);
        lemma_spelled_from(sigs[s], 0);
        assert(sigs[s].skip(0) =~= sigs[s]);
    }
}

/// The length and the first letter of a name, by which the functions differ.
spec fn mark(name: Seq<char>) -> (nat, char) {
    (name.len(), name[0])
}

/// The marks of the functions of both libraries.
spec fn mark_of(d: int) -> (nat, char) {
    if d == 0 {
        (23, 'B')
    } else if d == 1 {
        (20, 'B')
    } else if d == 2 {
        (18, 'B')
    } else if d == 3 {
        (24, 'C')
    } else if d == 4 {
        (14, 'C')
    } else if d == 5 {
        (17, 'C')
    } else if d == 6 {
        (13, 'C')
    } else if d == 7 {
        (20, 'C')
    } else if d == 8 {
        (21, 'G')
    } else if d == 9 {
        (22, 'G')
    } else if d == 10 {
        (16, 'G')
    } else if d == 11 {
        (15, 'G')
    } else if d == 12 {
        (14, 'G')
    } else if d == 13 {
        (13, 'G')
    } else if d == 14 {
        (17, 'I')
    } else if d == 15 {
        (25, 'K')
    } else if d == 16 {
        (22, 'K')
    } else if d == 17 {
        (22, 'L')
    } else if d == 18 {
        (11, 'L')
    } else if d == 19 {
        (20, 'M')
    } else if d == 20 {
        (11, 'O')
    } else if d == 21 {
        (18, 'P')
    } else if d == 22 {
        (28, 'P')
    } else if d == 23 {
        (7, 'R')
    } else if d == 24 {
        (18, 'S')
    } else if d == 25 {
        (12, 'S')
    } else if d == 26 {
        (19, 'A')
    } else if d == 27 {
        (30, 'B')
    } else if d == 28 {
        (29, 'C')
    } else if d == 29 {
        (17, 'F')
    } else if d == 30 {
        (10, 'G')
    } else if d == 31 {
        (18, 'L')
    } else if d == 32 {
        (13, 'M')
    } else if d == 33 {
        (23, 'R')
    } else {
        (22, 'S')
    }
}

proof fn lemma_mark(d: int)
    requires
        0 <= d < all_functions().len(),
    ensures
        mark(all_functions()[d].0) == mark_of(d),
{
    if d == 0 {
        reveal_strlit("BBuildAndAsyncSendFrame");
    } else if d == 1 {
        reveal_strlit("BuildDepotDependency");
    } else if d == 2 {
        reveal_strlit("BuildSpawnEnvBlock");
    } else if d == 3 {
        reveal_strlit("CUtlBufferEnsureCapacity");
    } else if d == 4 {
        reveal_strlit("CUtlMemoryGrow");
    } else if d == 5 {
        reveal_strlit("CheckAppOwnership");
    } else if d == 6 {
        reveal_strlit("CloseAppCloud");
    } else if d == 7 {
        reveal_strlit("ConfigStoreGetBinary");
    } else if d == 8 {
        reveal_strlit("GetAppDataFromAppInfo");
    } else if d == 9 {
        reveal_strlit("GetAppIDForCurrentPipe");
    } else if d == 10 {
        reveal_strlit("GetDecryptionKey");
    } else if d == 11 {
        reveal_strlit("GetOrAddAppData");
    } else if d == 12 {
        reveal_strlit("GetPackageInfo");
    } else if d == 13 {
        reveal_strlit("GetPipeClient");
    } else if d == 14 {
        reveal_strlit("IPCProcessMessage");
    } else if d == 15 {
        reveal_strlit("KeyValues_FindOrCreateKey");
    } else if d == 16 {
        reveal_strlit("KeyValues_ReadAsBinary");
    } else if d == 17 {
        reveal_strlit("LoadDepotDecryptionKey");
    } else if d == 18 {
        reveal_strlit("LoadPackage");
    } else if d == 19 {
        reveal_strlit("MarkLicenseAsChanged");
    } else if d == 20 {
        reveal_strlit("OptedInMask");
    } else if d == 21 {
        reveal_strlit("PchMsgNameFromEMsg");
    } else if d == 22 {
        reveal_strlit("ProcessPendingLicenseUpdates");
    } else if d == 23 {
        reveal_strlit("RecvPkt");
    } else if d == 24 {
        reveal_strlit("SendCallbackToPipe");
    } else if d == 25 {
        reveal_strlit("SpawnProcess");
    } else if d == 26 {
        reveal_strlit("AddProtobufAsBinary");
    } else if d == 27 {
        reveal_strlit("BuildCompleteAppOverviewChange");
    } else if d == 28 {
        reveal_strlit("CSteamUIAppControllerRunFrame");
    } else if d == 29 {
        reveal_strlit("FillInAppOverview");
    } else if d == 30 {
        reveal_strlit("GetAppByID");
    } else if d == 31 {
        reveal_strlit("LoadModuleWithPath");
    } else if d == 32 {
        reveal_strlit("MarkAppChange");
    } else if d == 33 {
        reveal_strlit("RepeatedFieldUint32_Add");
    } else {
        reveal_strlit("ShouldShowAppInLibrary");
    }
}

/// No function occurs twice, neither in one table nor in both.
pub proof fn law_functions_are_distinct(i: int, j: int)
    requires
        0 <= i < j < all_functions().len(),
    ensures
        all_functions()[i].0 != all_functions()[j].0,
{
    lemma_mark(i);
    lemma_mark(j);
}

/// A definition is seen with its own name and its own signatures, in order.
pub proof fn law_definitions_are_seen(defs: Seq<SignatureDefinition>, d: int, s: int)
    requires
        0 <= d < defs.len(),
        0 <= s < defs[d].sigs@.len(),
    ensures
        table_of(defs).len() == defs.len(),
        table_of(defs)[d].0 == defs[d].name@,
        table_of(defs)[d].1.len() == defs[d].sigs@.len(),
        table_of(defs)[d].1[s] == defs[d].sigs@[s]@,
{
}

} // verus!
